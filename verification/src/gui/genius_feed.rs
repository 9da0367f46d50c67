//! State of the Genius feed: which item has focus, which items show their
//! metadata, and when typing should query the API.

use vstd::prelude::*;
use std::collections::HashSet;
use crate::App;
use crate::genius_platform::genius_api_bridge::{GeniusApiBridge, QueryStep, ran_page, reset_for};
use crate::text::{owned, same_text};

verus! {

broadcast use vstd::std_specs::hash::group_hash_axioms;

/// Rate limiting of API requests: the time of the last request, in
/// nanoseconds on a monotonic clock, the text it asked about, and the
/// shortest time between two requests.
pub struct ApiRequestCache {
    last_api_request_ns: Option<u64>,
    last_query_text: String,
    min_request_interval_ns: u64,
}

/// The plain values of a cache.
pub struct CacheView {
    pub last_api_request_ns: Option<u64>,
    pub last_query_text: Seq<char>,
    pub min_request_interval_ns: u64,
}

impl View for ApiRequestCache {
    type V = CacheView;

    closed spec fn view(&self) -> CacheView {
        CacheView {
            last_api_request_ns: self.last_api_request_ns,
            last_query_text: self.last_query_text@,
            min_request_interval_ns: self.min_request_interval_ns,
        }
    }
}

/// Whether the API should be queried for `input` at `now`: the input is
/// not empty, differs from the last query, and the last request (if any)
/// is at least the minimum interval old.
pub open spec fn should_query(c: CacheView, input: Seq<char>, now: u64) -> bool {
    &&& input.len() > 0
    &&& input != c.last_query_text
    &&& match c.last_api_request_ns {
        Some(last) => (if now >= last {
            now - last
        } else {
            0
        }) >= c.min_request_interval_ns,
        None => true,
    }
}

impl ApiRequestCache {
    /// No request yet; requests at least 50 milliseconds apart.
    pub fn new() -> (c: Self)
        ensures
            c@ == (CacheView {
                last_api_request_ns: None,
                last_query_text: Seq::empty(),
                min_request_interval_ns: 50_000_000,
            }),
    {
        ApiRequestCache {
            last_api_request_ns: None,
            last_query_text: String::new(),
            min_request_interval_ns: 50_000_000,
        }
    }

    /// Decides whether to query the API for `input_text` at `now_ns`, and
    /// when it does, remembers the time and the text.
    pub fn check_query(&mut self, input_text: &str, now_ns: u64) -> (go: bool)
        ensures
            go == should_query(old(self)@, input_text@, now_ns),
            final(self)@ == if go {
                CacheView {
                    last_api_request_ns: Some(now_ns),
                    last_query_text: input_text@,
                    ..old(self)@
                }
            } else {
                old(self)@
            },
    {
        // Skip empty input
        if input_text.is_empty() {
            return false;
        }
        // Skip if input hasn't changed since last query
        if same_text(input_text, self.last_query_text.as_str()) {
            return false;
        }
        // Check if enough time has passed since the last request
        let should = match self.last_api_request_ns {
            Some(last) => now_ns.saturating_sub(last) >= self.min_request_interval_ns,
            None => true,
        };
        if should {
            self.last_api_request_ns = Some(now_ns);
            self.last_query_text = owned(input_text);
        }
        should
    }
}

/// Query the API if conditions are met (rate limiting and input changed):
/// the query goes through the bridge, and what it needs next is returned.
pub fn maybe_query_api(
    app: &mut App,
    cache: &mut ApiRequestCache,
    bridge: &mut GeniusApiBridge,
    input_text: &str,
    now_ns: u64,
) -> (step: Option<QueryStep>)
    ensures
        *final(app) == *old(app),
        should_query(old(cache)@, input_text@, now_ns) ==> (step matches Some(s) && ran_page(
            reset_for(old(bridge)@, input_text@),
            input_text@,
            reset_for(old(bridge)@, input_text@).current_page,
            final(bridge)@,
            s,
        )),
        !should_query(old(cache)@, input_text@, now_ns) ==> step is None && final(bridge)@ == old(
            bridge,
        )@,
        final(cache)@ == if should_query(old(cache)@, input_text@, now_ns) {
            CacheView {
                last_api_request_ns: Some(now_ns),
                last_query_text: input_text@,
                ..old(cache)@
            }
        } else {
            old(cache)@
        },
{
    if cache.check_query(input_text, now_ns) {
        Some(bridge.query_with_input(app, input_text))
    } else {
        None
    }
}

/// State for the Genius Feed
pub struct GeniusFeedState {
    /// Index of the currently focused item (0-based)
    pub focused_index: Option<usize>,
    /// Set of expanded item indices that show metadata
    pub expanded_items: HashSet<usize>,
}

/// The focus after moving up through `count` items, wrapping around.
pub open spec fn focus_up(f: Option<usize>, count: usize) -> Option<usize> {
    if count == 0 {
        f
    } else {
        match f {
            Some(c) => if c > 0 {
                Some((c - 1) as usize)
            } else {
                Some((count - 1) as usize)
            },
            None => Some(0),
        }
    }
}

/// The focus after moving down through `count` items, wrapping around.
pub open spec fn focus_down(f: Option<usize>, count: usize) -> Option<usize> {
    if count == 0 {
        f
    } else {
        match f {
            Some(c) => if c < count - 1 {
                Some((c + 1) as usize)
            } else {
                Some(0)
            },
            None => Some(0),
        }
    }
}

/// The focus once the feed shows `count` items: none without items, the
/// first item when nothing had focus, the same item otherwise.
pub open spec fn settled(f: Option<usize>, count: usize) -> Option<usize> {
    if count == 0 {
        None
    } else if f is None {
        Some(0)
    } else {
        f
    }
}

impl GeniusFeedState {
    /// The first item has focus and no item is expanded.
    pub fn new() -> (s: Self)
        ensures
            s.focused_index == Some(0usize),
            s.expanded_items@ == Set::<usize>::empty(),
    {
        GeniusFeedState { focused_index: Some(0), expanded_items: HashSet::new() }
    }

    /// Get the current focused index
    pub fn get_focused_index(&self) -> (f: Option<usize>)
        ensures
            f == self.focused_index,
    {
        self.focused_index
    }

    /// Set the focused index
    pub fn set_focused_index(&mut self, index: Option<usize>)
        ensures
            final(self).focused_index == index,
            final(self).expanded_items@ == old(self).expanded_items@,
    {
        self.focused_index = index;
    }

    /// Check if an item is expanded
    pub fn is_item_expanded(&self, index: usize) -> (b: bool)
        ensures
            b == self.expanded_items@.contains(index),
    {
        self.expanded_items.contains(&index)
    }

    /// Toggle the expanded state of an item
    pub fn toggle_item_expansion(&mut self, index: usize)
        ensures
            final(self).focused_index == old(self).focused_index,
            final(self).expanded_items@ == toggled_items(old(self).expanded_items@, index),
    {
        if self.expanded_items.contains(&index) {
            self.expanded_items.remove(&index);
        } else {
            self.expanded_items.insert(index);
        }
    }

    /// Move focus up
    pub fn focus_previous(&mut self, item_count: usize)
        ensures
            final(self).focused_index == focus_up(old(self).focused_index, item_count),
            final(self).expanded_items@ == old(self).expanded_items@,
    {
        if item_count == 0 {
            return;
        }
        match self.focused_index {
            Some(current) => {
                if current > 0 {
                    self.focused_index = Some(current - 1);
                } else {
                    // Wrap around to the last item
                    self.focused_index = Some(item_count - 1);
                }
            },
            None => {
                self.focused_index = Some(0);
            },
        }
    }

    /// Move focus down
    pub fn focus_next(&mut self, item_count: usize)
        ensures
            final(self).focused_index == focus_down(old(self).focused_index, item_count),
            final(self).expanded_items@ == old(self).expanded_items@,
    {
        if item_count == 0 {
            return;
        }
        match self.focused_index {
            Some(current) => {
                if current < item_count - 1 {
                    self.focused_index = Some(current + 1);
                } else {
                    // Wrap around to the first item
                    self.focused_index = Some(0);
                }
            },
            None => {
                self.focused_index = Some(0);
            },
        }
    }

    /// Keeps the focus on an item while the feed shows `item_count` items.
    pub fn settle_focus(&mut self, item_count: usize)
        ensures
            final(self).focused_index == settled(old(self).focused_index, item_count),
            final(self).expanded_items@ == old(self).expanded_items@,
    {
        if item_count == 0 {
            self.focused_index = None;
        } else if self.focused_index.is_none() {
            self.focused_index = Some(0);
        }
    }
}

/// What the feed shows instead of items: nothing when there is a response,
/// a loading note while a request is in progress, an invitation otherwise.
pub fn feed_placeholder(bridge: &GeniusApiBridge) -> (s: Option<&'static str>)
    ensures
        match s {
            None => bridge@.last_response is Some,
            Some(t) => bridge@.last_response is None && t@ == if bridge@.request_in_progress {
                "Loading results..."@
            } else {
                "Type to see Genius suggestions"@
            },
        },
{
    if bridge.last_response().is_some() {
        None
    } else if bridge.is_request_in_progress() {
        Some("Loading results...")
    } else {
        Some("Type to see Genius suggestions")
    }
}

/// The mark after an item: an arrow while its metadata is hidden.
pub fn expand_indicator(is_expanded: bool) -> (s: &'static str)
    ensures
        s@ == if is_expanded {
            Seq::<char>::empty()
        } else {
            "\u{25b6}"@
        },
{
    if is_expanded {
        proof {
            reveal_strlit("");
        }
        ""
    } else {
        "\u{25b6}"
    }
}

/// After a query is let through, no query is let through until the minimum
/// interval has passed, and the same text is not queried again.
pub proof fn lemma_rate_limit(c: CacheView, input: Seq<char>, now1: u64, next: Seq<char>, now2: u64)
    requires
        should_query(c, input, now1),
        now1 <= now2,
        now2 - now1 < c.min_request_interval_ns,
    ensures
        ({
            let after = CacheView { last_api_request_ns: Some(now1), last_query_text: input, ..c };
            &&& !should_query(after, next, now2)
            &&& forall|later: u64| !should_query(after, input, later)
        }),
{
}

/// Moving the focus down and then up through the items, or up and then
/// down, returns it to the item it was on.
pub proof fn lemma_feed_focus_round_trip(i: usize, count: usize)
    requires
        i < count,
    ensures
        focus_up(focus_down(Some(i), count), count) == Some(i),
        focus_down(focus_up(Some(i), count), count) == Some(i),
{
}

/// The expanded items after toggling the item `index`.
pub open spec fn toggled_items(s: Set<usize>, index: usize) -> Set<usize> {
    if s.contains(index) {
        s.remove(index)
    } else {
        s.insert(index)
    }
}

/// Toggling an item twice leaves the expanded items as they were.
pub proof fn lemma_toggle_item_twice(s: Set<usize>, index: usize)
    ensures
        toggled_items(toggled_items(s, index), index) == s,
{
    assert(toggled_items(toggled_items(s, index), index) =~= s);
}

} // verus!
