//! Genius Feed input handling: the keys of the feed mode, kept apart from
//! the outliner's key handling.

use vstd::prelude::*;
use crate::App;
use crate::commands::{AppMode, toggle_app_mode};
use crate::genius_platform::genius_api_bridge::{GeniusApiBridge, QueryStep, ran_page, reset_for};
use crate::gui::genius_feed::{ApiRequestCache, CacheView, should_query, maybe_query_api};

verus! {

/// Handles keyboard input for Genius Feed mode
pub struct GeniusKeyHandler {
    /// Whether shift key is currently pressed
    pub shift_pressed: bool,
    /// Whether control key is currently pressed
    pub ctrl_pressed: bool,
}

/// The keyboard during one frame of the feed mode: the modifiers held, the
/// space bar pressed, and the time in nanoseconds on a monotonic clock.
#[derive(Clone, Copy, Debug, PartialEq, Eq, Structural)]
pub struct FeedFrame {
    pub shift: bool,
    pub ctrl: bool,
    pub space: bool,
    pub now_ns: u64,
}

/// The other mode.
pub open spec fn other_mode(m: AppMode) -> AppMode {
    match m {
        AppMode::Pkm => AppMode::Feed,
        AppMode::Feed => AppMode::Pkm,
    }
}

impl GeniusKeyHandler {
    /// Create a new Genius key handler
    pub fn new() -> (h: Self)
        ensures
            !h.shift_pressed,
            !h.ctrl_pressed,
    {
        GeniusKeyHandler { shift_pressed: false, ctrl_pressed: false }
    }

    /// Update modifier key states from the current input
    pub fn update_modifiers(&mut self, shift: bool, ctrl: bool)
        ensures
            final(self).shift_pressed == shift,
            final(self).ctrl_pressed == ctrl,
    {
        self.shift_pressed = shift;
        self.ctrl_pressed = ctrl;
    }

    /// Handle keyboard input for Genius Feed mode: the modifiers are taken
    /// from the frame, the API is queried for the input text when the rate
    /// limit allows (what the query needs next is returned), and Ctrl+Space
    /// switches the mode.  Returns whether a key was handled.
    pub fn handle_input(
        &mut self,
        app: &mut App,
        frame: FeedFrame,
        cache: &mut ApiRequestCache,
        bridge: &mut GeniusApiBridge,
        input_text: &str,
    ) -> (r: (bool, Option<QueryStep>))
        ensures
            final(self).shift_pressed == frame.shift,
            final(self).ctrl_pressed == frame.ctrl,
            r.0 == (frame.space && frame.ctrl),
            *final(app) == if r.0 {
                App { app_mode: other_mode(old(app).app_mode), ..*old(app) }
            } else {
                *old(app)
            },
            should_query(old(cache)@, input_text@, frame.now_ns) ==> (r.1 matches Some(s) && ran_page(
                reset_for(old(bridge)@, input_text@),
                input_text@,
                reset_for(old(bridge)@, input_text@).current_page,
                final(bridge)@,
                s,
            )),
            !should_query(old(cache)@, input_text@, frame.now_ns) ==> r.1 is None && final(bridge)@
                == old(bridge)@,
            final(cache)@ == if should_query(old(cache)@, input_text@, frame.now_ns) {
                CacheView {
                    last_api_request_ns: Some(frame.now_ns),
                    last_query_text: input_text@,
                    ..old(cache)@
                }
            } else {
                old(cache)@
            },
    {
        // Update modifier keys
        self.update_modifiers(frame.shift, frame.ctrl);
        // Check if we should query the API based on input changes
        let step = maybe_query_api(app, cache, bridge, input_text, frame.now_ns);
        let mut handled = false;
        // Check for Ctrl+Space for mode switching
        if frame.space && self.ctrl_pressed {
            app.app_mode = toggle_app_mode(app, app.app_mode);
            handled = true;
        }
        (handled, step)
    }
}

} // verus!
