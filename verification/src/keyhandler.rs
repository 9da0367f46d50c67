//! Decisions behind keyboard input: key combinations, navigation keys and
//! the Enter key, applied to the application state.

use vstd::prelude::*;
use crate::App;
use crate::commands::{Command, execute_command, execute_create_command, execute_add_subtask,
    parse_command, executed, is_parsed_command, create_applied, subtask_parent, subtask_added,
    edited_to, edit_then_complete};
use crate::display_container::{DisplayView, sync_input, refresh_display, display_index_of,
    EditRequest, input_after_request, edit_facts};
use crate::taskstore::{Task, opt_int, position_of_id, lemma_position_of_id};
use crate::text::{owned, usize_to_string, decimal};

verus! {

broadcast use vstd::std_specs::hash::group_hash_axioms;

/// Represents a key combination detected from the keyboard state
#[derive(Clone, Copy, Debug, PartialEq, Eq, Structural)]
pub enum KeyCombination {
    /// Ctrl+Up key combination
    CtrlUp,
    /// Ctrl+Down key combination
    CtrlDown,
    /// Ctrl+Enter key combination
    CtrlEnter,
    /// Shift+Enter key combination
    ShiftEnter,
    /// No special combination detected
    NoCombination,
}

/// Which of the keys that make up combinations are held down.
#[derive(Clone, Copy, Debug, PartialEq, Eq, Structural)]
pub struct PressedKeys {
    pub ctrl: bool,
    pub shift: bool,
    pub up: bool,
    pub down: bool,
    pub enter: bool,
}

/// The combination that the held keys make, in order of precedence.
pub open spec fn combination_of(keys: PressedKeys) -> KeyCombination {
    if keys.ctrl && keys.up {
        KeyCombination::CtrlUp
    } else if keys.ctrl && keys.down {
        KeyCombination::CtrlDown
    } else if keys.ctrl && keys.enter {
        KeyCombination::CtrlEnter
    } else if keys.shift && keys.enter {
        KeyCombination::ShiftEnter
    } else {
        KeyCombination::NoCombination
    }
}

/// The abstract state of a tracker.
pub struct TrackerView {
    pub last_check_ms: u64,
    pub debounce_ms: u64,
    pub last_combination: KeyCombination,
    pub shift_pressed: bool,
}

/// Tracks the state of special key combinations.  Times are milliseconds on
/// a monotonic clock that the caller reads.
pub struct KeyCombinationTracker {
    last_check_ms: u64,
    debounce_ms: u64,
    last_combination: KeyCombination,
    /// Tracks whether the Shift key is currently pressed
    pub shift_pressed: bool,
}

impl View for KeyCombinationTracker {
    type V = TrackerView;

    closed spec fn view(&self) -> TrackerView {
        TrackerView {
            last_check_ms: self.last_check_ms,
            debounce_ms: self.debounce_ms,
            last_combination: self.last_combination,
            shift_pressed: self.shift_pressed,
        }
    }
}

/// What `check_combinations` reports and how the tracker changes, at time
/// `now_ms` with the given keys held.
pub open spec fn check_step(t: TrackerView, now_ms: u64, keys: PressedKeys) -> (TrackerView, KeyCombination) {
    let elapsed = if now_ms >= t.last_check_ms {
        now_ms - t.last_check_ms
    } else {
        0
    };
    if elapsed < t.debounce_ms {
        (t, KeyCombination::NoCombination)
    } else {
        let t1 = TrackerView { shift_pressed: keys.shift, ..t };
        if !keys.ctrl && !keys.shift {
            (TrackerView { last_combination: KeyCombination::NoCombination, ..t1 }, KeyCombination::NoCombination)
        } else {
            let current = combination_of(keys);
            if current == KeyCombination::NoCombination {
                (t1, KeyCombination::NoCombination)
            } else {
                (
                    TrackerView { last_check_ms: now_ms, last_combination: current, ..t1 },
                    current,
                )
            }
        }
    }
}

impl KeyCombinationTracker {
    /// Creates a new key combination tracker; the clock starts at zero.
    pub fn new(debounce_ms: u64) -> (t: Self)
        ensures
            t@ == (TrackerView {
                last_check_ms: 0,
                debounce_ms,
                last_combination: KeyCombination::NoCombination,
                shift_pressed: false,
            }),
    {
        KeyCombinationTracker {
            last_check_ms: 0,
            debounce_ms,
            last_combination: KeyCombination::NoCombination,
            shift_pressed: false,
        }
    }

    /// Checks for special key combinations at time `now_ms`.
    /// Returns the detected combination if any
    pub fn check_combinations(&mut self, now_ms: u64, keys: PressedKeys) -> (c: KeyCombination)
        ensures
            (final(self)@, c) == check_step(old(self)@, now_ms, keys),
    {
        let elapsed = if now_ms >= self.last_check_ms {
            now_ms - self.last_check_ms
        } else {
            0
        };
        // Only check for key combos if cooldown has elapsed
        if elapsed < self.debounce_ms {
            return KeyCombination::NoCombination;
        }
        self.shift_pressed = keys.shift;
        if !keys.ctrl && !keys.shift {
            if self.last_combination != KeyCombination::NoCombination {
                self.last_combination = KeyCombination::NoCombination;
            }
            return KeyCombination::NoCombination;
        }
        let current = if keys.ctrl && keys.up {
            KeyCombination::CtrlUp
        } else if keys.ctrl && keys.down {
            KeyCombination::CtrlDown
        } else if keys.ctrl && keys.enter {
            KeyCombination::CtrlEnter
        } else if keys.shift && keys.enter {
            KeyCombination::ShiftEnter
        } else {
            KeyCombination::NoCombination
        };
        if current == KeyCombination::NoCombination {
            return KeyCombination::NoCombination;
        }
        // A different combination, or one repeated after the debounce time
        let should_trigger = current != self.last_combination || elapsed >= self.debounce_ms;
        if should_trigger {
            self.last_check_ms = now_ms;
            self.last_combination = current;
            return current;
        }
        KeyCombination::NoCombination
    }
}

/// Once a combination is reported, no combination is reported again until
/// the debounce time has passed, whatever keys are held.
pub proof fn lemma_debounce(t: TrackerView, now1: u64, keys1: PressedKeys, now2: u64, keys2: PressedKeys)
    requires
        check_step(t, now1, keys1).1 != KeyCombination::NoCombination,
        now1 <= now2,
        now2 - now1 < t.debounce_ms,
    ensures
        check_step(check_step(t, now1, keys1).0, now2, keys2).1 == KeyCombination::NoCombination,
{
}

/// The navigation keys.
#[derive(Clone, Copy, Debug, PartialEq, Eq, Structural)]
pub enum NavigationKey {
    Up,
    Down,
    Esc,
}

/// The display after a navigation key: Up and Down move the focus with
/// wrapping around the input line and the listed tasks, and the input then
/// follows the focus; Esc clears the focus.  Without a focus, Up and Down do
/// nothing.
pub open spec fn navigated(v: DisplayView, key: NavigationKey, tasks: Seq<Task>) -> DisplayView {
    match key {
        NavigationKey::Up => match v.focused_index {
            Some(c) => sync_input(
                DisplayView {
                    focused_index: Some(
                        if c == 0 {
                            v.display_to_id.len() as usize
                        } else {
                            (c - 1) as usize
                        },
                    ),
                    ..v
                },
                tasks,
            ),
            None => v,
        },
        NavigationKey::Down => match v.focused_index {
            Some(c) => sync_input(
                DisplayView {
                    focused_index: Some(
                        if c >= v.display_to_id.len() {
                            0
                        } else {
                            (c + 1) as usize
                        },
                    ),
                    ..v
                },
                tasks,
            ),
            None => v,
        },
        NavigationKey::Esc => DisplayView { focused_index: None, ..v },
    }
}

/// Every entry of the display names a task of the active container.
pub open spec fn lists_active_tasks(v: DisplayView, tasks: Seq<Task>) -> bool {
    forall|k: int|
        0 <= k < v.display_to_id.len() ==> (#[trigger] position_of_id(tasks, v.display_to_id[k])
            matches Some(p) && tasks[p].container == v.active_container)
}

/// The arrow keys step the focus by one entry, wrapping around: on a
/// display whose entries name tasks of the active container, Up from entry
/// `c` goes to `c - 1` (from the input line, to the last task) and Down to
/// `c + 1` (from the last task, to the input line); a focused task's
/// content comes into the input and the input line's input is empty.  Esc
/// clears the focus.
pub proof fn lemma_arrows_step_by_one(v: DisplayView, tasks: Seq<Task>, c: usize)
    requires
        v.focused_index == Some(c),
        c <= v.display_to_id.len(),
        v.display_to_id.len() > 0,
        lists_active_tasks(v, tasks),
    ensures
        c > 0 ==> navigated(v, NavigationKey::Up, tasks).focused_index == Some((c - 1) as usize),
        c == 0 ==> navigated(v, NavigationKey::Up, tasks).focused_index == Some(
            v.display_to_id.len() as usize,
        ),
        c < v.display_to_id.len() ==> navigated(v, NavigationKey::Down, tasks).focused_index == Some(
            (c + 1) as usize,
        ),
        c == v.display_to_id.len() ==> navigated(v, NavigationKey::Down, tasks).focused_index == Some(
            0usize,
        ),
        forall|key: NavigationKey, k: usize|
            key != NavigationKey::Esc && navigated(v, key, tasks).focused_index == Some(k) ==> {
                &&& k == 0 ==> navigated(v, key, tasks).input == Seq::<char>::empty()
                &&& k > 0 ==> (position_of_id(tasks, v.display_to_id[k - 1]) matches Some(p)
                    && navigated(v, key, tasks).input == tasks[p].content@)
            },
        navigated(v, NavigationKey::Esc, tasks).focused_index is None,
{
    let p0 = position_of_id(tasks, v.display_to_id[0])->0;
    assert(position_of_id(tasks, v.display_to_id[0]) matches Some(p) && tasks[p].container
        == v.active_container);
    lemma_position_of_id(tasks, v.display_to_id[0]);
    assert(tasks[p0].container == v.active_container);
    assert(crate::display_container::has_task_in(tasks, v.active_container));
    assert forall|k: int| 0 <= k < v.display_to_id.len() implies (#[trigger] position_of_id(
        tasks,
        v.display_to_id[k],
    ) matches Some(p) && 0 <= p < tasks.len()) by {
        lemma_position_of_id(tasks, v.display_to_id[k]);
    }
}

/// Everything but the display is as before.
pub open spec fn only_display_changed(old: App, new: App) -> bool {
    &&& new.tasks@ == old.tasks@
    &&& new.next_id == old.next_id
    &&& new.tasks_file@ == old.tasks_file@
    &&& new.activity_log@ == old.activity_log@
    &&& new.show_help == old.show_help
    &&& new.app_mode == old.app_mode
    &&& new.pending_save == old.pending_save
}

/// Handle basic navigation keys
pub fn handle_navigation_keys(app: &mut App, key: NavigationKey)
    ensures
        only_display_changed(*old(app), *final(app)),
        final(app).display_container_state@ == navigated(
            old(app).display_container_state@,
            key,
            old(app).tasks@,
        ),
{
    match key {
        NavigationKey::Up => {
            if let Some(current) = app.display_container_state.focused_index {
                let new_index = if current == 0 {
                    app.display_container_state.display_to_id.len()
                } else {
                    current - 1
                };
                app.display_container_state.focused_index = Some(new_index);
                app.display_container_state.update_input_for_focus(app.tasks.as_slice());
            }
        },
        NavigationKey::Down => {
            if let Some(current) = app.display_container_state.focused_index {
                let new_index = if current >= app.display_container_state.display_to_id.len() {
                    0
                } else {
                    current + 1
                };
                app.display_container_state.focused_index = Some(new_index);
                app.display_container_state.update_input_for_focus(app.tasks.as_slice());
            }
        },
        NavigationKey::Esc => app.display_container_state.clear_focus(),
    }
}

/// The id of the task listed at the focused entry, when a task has focus.
pub open spec fn focused_task_id(v: DisplayView) -> Option<u32> {
    match v.focused_index {
        Some(idx) => if 1 <= idx && idx <= v.display_to_id.len() {
            Some(v.display_to_id[idx - 1])
        } else {
            None
        },
        None => None,
    }
}

/// The folded set with the task's fold flipped.
pub open spec fn toggled(folded: Set<u32>, id: u32) -> Set<u32> {
    if folded.contains(id) {
        folded.remove(id)
    } else {
        folded.insert(id)
    }
}

/// Ctrl+Up and Ctrl+Down: the focused task is folded or unfolded and the
/// display refreshed; without a focused task nothing happens.
pub open spec fn ctrl_navigation_step(old: App, new: App, handled: bool) -> bool {
    let d = old.display_container_state@;
    &&& only_display_changed(old, new)
    &&& handled == focused_task_id(d) is Some
    &&& match focused_task_id(d) {
        Some(id) => new.display_container_state@ == refresh_display(
            DisplayView { folded: toggled(d.folded, id), ..d },
            old.tasks@,
        ),
        None => new.display_container_state@ == d,
    }
}

/// Handles Ctrl+Up and Ctrl+Down: the focused task's expansion is toggled
pub fn handle_ctrl_navigation(app: &mut App, combination: KeyCombination) -> (handled: bool)
    ensures
        ctrl_navigation_step(*old(app), *final(app), handled),
{
    if let Some(idx) = app.display_container_state.focused_index {
        if idx > 0 && idx - 1 < app.display_container_state.display_to_id.len() {
            let task_id = app.display_container_state.display_to_id[idx - 1];
            app.display_container_state.toggle_task_expansion(task_id, app.tasks.as_slice());
            return true;
        }
    }
    false
}

/// `new` is `old` with the focus returned to the entry a subtask was created
/// from, if one is remembered.
pub open spec fn focus_restored(old: App, new: App) -> bool {
    let d = old.display_container_state@;
    &&& only_display_changed(old, new)
    &&& new.display_container_state@ == match d.original_focus {
        Some(o) => sync_input(
            DisplayView { focused_index: Some(o), original_focus: None, ..d },
            old.tasks@,
        ),
        None => d,
    }
}

/// The command that Enter runs on a nonempty input: a parsed command on the
/// input line, an edit of a focused task, nothing on a focus past the list.
pub open spec fn enter_command(c: Option<Command>, v: DisplayView) -> bool {
    match v.focused_index {
        Some(idx) => if idx == 0 {
            c matches Some(cmd) && is_parsed_command(cmd, v.input)
        } else {
            match focused_task_id(v) {
                Some(id) => c matches Some(Command::Edit(eid, content)) && eid == id && content@
                    == v.input,
                None => c is None,
            }
        },
        None => c matches Some(cmd) && is_parsed_command(cmd, v.input),
    }
}

/// The Enter key: an empty input does nothing; otherwise the command it
/// stands for runs, and the focus returns to where a subtask was created
/// from.
pub open spec fn enter_key_step(old: App, new: App) -> bool {
    let d = old.display_container_state@;
    &&& d.input.len() == 0 ==> new == old
    &&& d.input.len() > 0 ==> exists|c: Option<Command>, mid: App|
        #![trigger enter_command(c, d), focus_restored(mid, new)]
        enter_command(c, d) && (match c {
            Some(_) => executed(old, mid, c),
            None => mid == old,
        }) && focus_restored(mid, new)
}

/// Handle regular Enter key command processing
pub fn handle_enter_command(app: &mut App)
    requires
        old(app).next_id < u32::MAX,
    ensures
        enter_key_step(*old(app), *final(app)),
{
    let input = owned(app.display_container_state.input_value());
    if input.as_str().is_empty() {
        return ;
    }
    let command = match app.display_container_state.focused_index {
        Some(0) | None => Some(parse_command(input)),
        Some(idx) => {
            if idx - 1 < app.display_container_state.display_to_id.len() {
                Some(Command::Edit(app.display_container_state.display_to_id[idx - 1], input))
            } else {
                None
            }
        },
    };
    let ghost c = command;
    match command {
        Some(cmd) => execute_command(app, Some(cmd)),
        None => {},
    }
    let ghost mid = *app;
    // Return to the entry a subtask was created from, once it is edited
    if let Some(original_idx) = app.display_container_state.original_focus {
        app.display_container_state.focused_index = Some(original_idx);
        app.display_container_state.original_focus = None;
        app.display_container_state.update_input_for_focus(app.tasks.as_slice());
    }
    assert(enter_command(c, old(app).display_container_state@));
    assert(focus_restored(mid, *app));
}

/// A key as the terminal reports it: the navigation keys, Enter, an editing
/// request for the input field, or anything else.
#[derive(Clone, Copy, Debug, PartialEq, Eq, Structural)]
pub enum TermKey {
    Up,
    Down,
    Esc,
    Enter,
    Edit(EditRequest),
    Other,
}

/// What a key event does: navigation keys move the focus, Enter (unless
/// Shift is held, which leaves Shift+Enter to the combination tracker) runs
/// the input, editing requests change the input field, and other keys do
/// nothing.
pub open spec fn input_event_step(old: App, new: App, key: TermKey, shift_pressed: bool) -> bool {
    let d = old.display_container_state@;
    match key {
        TermKey::Up => only_display_changed(old, new) && new.display_container_state@ == navigated(
            d,
            NavigationKey::Up,
            old.tasks@,
        ),
        TermKey::Down => only_display_changed(old, new) && new.display_container_state@
            == navigated(d, NavigationKey::Down, old.tasks@),
        TermKey::Esc => only_display_changed(old, new) && new.display_container_state@
            == navigated(d, NavigationKey::Esc, old.tasks@),
        TermKey::Enter => if shift_pressed {
            new == old
        } else {
            enter_key_step(old, new)
        },
        TermKey::Edit(request) => {
            let r = input_after_request(d.input, d.cursor, request);
            &&& only_display_changed(old, new)
            &&& new.display_container_state@ == DisplayView { input: r.0, cursor: r.1, ..d }
        },
        TermKey::Other => new == old,
    }
}

/// Handles one key event from the terminal.
pub fn handle_input_event(app: &mut App, key: TermKey, key_tracker: &KeyCombinationTracker)
    requires
        key is Enter ==> old(app).next_id < u32::MAX,
    ensures
        input_event_step(*old(app), *final(app), key, key_tracker@.shift_pressed),
        key matches TermKey::Edit(request) ==> old(app).display_container_state@.cursor
            <= old(app).display_container_state@.input.len() ==> edit_facts(
            old(app).display_container_state@.input,
            old(app).display_container_state@.cursor,
            request,
            (final(app).display_container_state@.input, final(app).display_container_state@.cursor),
        ),
{
    match key {
        TermKey::Up => handle_navigation_keys(app, NavigationKey::Up),
        TermKey::Down => handle_navigation_keys(app, NavigationKey::Down),
        TermKey::Esc => handle_navigation_keys(app, NavigationKey::Esc),
        TermKey::Enter => {
            // Shift+Enter belongs to the combination tracker
            if key_tracker.shift_pressed {
                return ;
            }
            handle_enter_command(app);
        },
        TermKey::Edit(request) => {
            app.display_container_state.get_input_mut().handle(request);
        },
        TermKey::Other => {},
    }
}


/// Everything but the tasks is as before.
pub open spec fn unchanged_app(old: App, new: App) -> bool {
    &&& only_display_changed(old, new)
    &&& new.display_container_state@ == old.display_container_state@
}

/// Ctrl+Enter: with a nonempty input and a focus, the input line completes
/// the task the input names, and a focused task takes the input as its
/// content and is completed.
pub open spec fn ctrl_enter_key_step(old: App, new: App, handled: bool) -> bool {
    let d = old.display_container_state@;
    &&& handled == (d.input.len() > 0 && d.focused_index is Some)
    &&& !handled ==> new == old
    &&& handled && d.focused_index == Some(0usize) ==> exists|c: Command|
        #![trigger executed(old, new, Some(c))]
        (c matches Command::Complete(q) && q@ == d.input) && executed(old, new, Some(c))
    &&& handled && d.focused_index != Some(0usize) ==> match focused_task_id(d) {
        Some(id) => edit_then_complete(old, new, id, d.input),
        None => new == old,
    }
}

/// Handles Ctrl+Enter: with a nonempty input and a focus, the input line
/// completes the task the input names, and a focused task takes the input as
/// its content and is completed.
pub fn handle_ctrl_enter(app: &mut App) -> (handled: bool)
    ensures
        ctrl_enter_key_step(*old(app), *final(app), handled),
{
    let input = owned(app.display_container_state.input_value());
    if input.as_str().is_empty() || app.display_container_state.focused_index.is_none() {
        return false;
    }
    match app.display_container_state.focused_index {
        Some(0) | None => {
            execute_command(app, Some(Command::Complete(input)));
        },
        Some(idx) => {
            if idx - 1 < app.display_container_state.display_to_id.len() {
                let task_id = app.display_container_state.display_to_id[idx - 1];
                let ghost c = Command::Edit(task_id, input);
                let ghost text = input@;
                execute_command(app, Some(Command::Edit(task_id, input)));
                let ghost mid = *app;
                assert(executed(*old(app), mid, Some(c)));
                assert(edited_to(*old(app), mid, task_id, text));
                execute_command(app, Some(Command::CompleteById(task_id)));
                assert(edit_then_complete(*old(app), *app, task_id, text));
            }
        },
    }
    true
}

/// The display after a subtask was added under task `parent` from the entry
/// `origin`: the origin is remembered, the parent is unfolded, the order is
/// refreshed, and the new subtask takes the focus when it is listed.
pub open spec fn subtask_display(v: DisplayView, parent: u32, origin: usize, tasks: Seq<Task>, sub: Option<u32>) -> DisplayView {
    let d1 = refresh_display(
        DisplayView { folded: v.folded.remove(parent), original_focus: Some(origin), ..v },
        tasks,
    );
    match sub {
        Some(s) => match display_index_of(d1, s) {
            Some(sd) => sync_input(DisplayView { focused_index: Some(sd as usize), ..d1 }, tasks),
            None => d1,
        },
        None => d1,
    }
}

/// `new` is `old` after a subtask with empty content was added under task
/// `parent` from the entry `origin`.
pub open spec fn subtask_step(old: App, new: App, parent: u32, origin: usize) -> bool {
    let d = old.display_container_state@;
    match subtask_parent(old.tasks@, decimal(parent as nat)) {
        Some(p) => {
            &&& subtask_added(old, new, p, Seq::empty())
            &&& new.display_container_state@ == subtask_display(
                d,
                parent,
                origin,
                new.tasks@,
                Some(old.next_id),
            )
        },
        None => {
            &&& only_display_changed(old, new)
            &&& new.display_container_state@ == subtask_display(d, parent, origin, new.tasks@, None)
        },
    }
}

/// Adds an empty subtask under `parent`, remembering `origin` as the entry
/// to return to, and focuses the subtask.
fn add_subtask_from(app: &mut App, parent: u32, origin: usize)
    requires
        old(app).next_id < u32::MAX,
    ensures
        subtask_step(*old(app), *final(app), parent, origin),
{
    app.display_container_state.original_focus = Some(origin);
    let ghost a0 = *app;
    let parent_ref = usize_to_string(parent as usize);
    proof {
        reveal_strlit("");
    }
    let subtask_id = execute_add_subtask(app, parent_ref.as_str(), "");
    proof {
        assert(parent_ref@ == decimal(parent as nat));
        assert(a0.tasks@ == old(app).tasks@);
        assert(a0.activity_log@ == old(app).activity_log@);
        assert(""@ =~= Seq::<char>::empty());
        assert(subtask_parent(a0.tasks@, parent_ref@) == subtask_parent(old(app).tasks@, decimal(parent as nat)));
    }
    app.display_container_state.folded_tasks.remove(&parent);
    assert(app.display_container_state@.folded == old(app).display_container_state@.folded.remove(parent));
    app.display_container_state.update_display_order(app.tasks.as_slice());
    if let Some(new_subtask_id) = subtask_id {
        if let Some(subtask_display_idx) = app.display_container_state.get_display_index(new_subtask_id) {
            app.display_container_state.focused_index = Some(subtask_display_idx);
            app.display_container_state.update_input_for_focus(app.tasks.as_slice());
        }
    }
}

/// What Shift+Enter does on the task listed at entry `idx`.
pub open spec fn shift_enter_on_task(old: App, new: App, idx: usize, handled: bool) -> bool {
    &&& handled == (idx <= old.display_container_state@.display_to_id.len())
    &&& handled ==> subtask_step(old, new, old.display_container_state@.display_to_id[idx - 1], idx)
    &&& !handled ==> new == old
}

/// What Shift+Enter does on the input line.
pub open spec fn shift_enter_on_input_line(old: App, new: App, handled: bool) -> bool {
    let d = old.display_container_state@;
    &&& d.input.len() == 0 ==> !handled && new == old
    &&& d.input.len() > 0 ==> exists|created: App|
        #![trigger create_applied(old, created, d.input)]
        create_applied(old, created, d.input) && created.display_container_state@
            == refresh_display(d, created.tasks@) && match display_index_of(
            created.display_container_state@,
            old.next_id,
        ) {
            Some(di) => handled && subtask_step(created, new, old.next_id, di as usize),
            None => !handled && new == created,
        }
}

/// Handles Shift+Enter when focus is on an existing task: an empty subtask
/// is added under it and takes the focus
pub fn handle_shift_enter_on_task(app: &mut App, idx: usize) -> (handled: bool)
    requires
        idx > 0,
        old(app).next_id < u32::MAX,
    ensures
        shift_enter_on_task(*old(app), *final(app), idx, handled),
{
    if idx - 1 < app.display_container_state.display_to_id.len() {
        let parent_task_id = app.display_container_state.display_to_id[idx - 1];
        add_subtask_from(app, parent_task_id, idx);
        return true;
    }
    false
}

/// Handles Shift+Enter when focus is on the input line: the input becomes a
/// new task, and when it is listed an empty subtask is added under it and
/// takes the focus
pub fn handle_shift_enter_on_input_line(app: &mut App) -> (handled: bool)
    requires
        old(app).next_id < u32::MAX - 1,
    ensures
        shift_enter_on_input_line(*old(app), *final(app), handled),
{
    let input = owned(app.display_container_state.input_value());
    if input.as_str().is_empty() {
        return false;
    }
    let new_task_id = execute_create_command(app, input.as_str());
    app.display_container_state.update_display_order(app.tasks.as_slice());
    let ghost created = *app;
    assert(create_applied(*old(app), created, old(app).display_container_state@.input));
    if let Some(task_display_idx) = app.display_container_state.get_display_index(new_task_id) {
        add_subtask_from(app, new_task_id, task_display_idx);
        return true;
    }
    false
}

/// Shift+Enter: on the input line or without a focus as
/// `shift_enter_on_input_line` says, on a task as `shift_enter_on_task` says.
pub open spec fn shift_enter_key_step(old: App, new: App, handled: bool) -> bool {
    match old.display_container_state@.focused_index {
        Some(idx) => if idx == 0 {
            shift_enter_on_input_line(old, new, handled)
        } else {
            shift_enter_on_task(old, new, idx, handled)
        },
        None => shift_enter_on_input_line(old, new, handled),
    }
}

/// Handles Shift+Enter key combination for subtask creation
pub fn handle_shift_enter(app: &mut App) -> (handled: bool)
    requires
        old(app).next_id < u32::MAX - 1,
    ensures
        shift_enter_key_step(*old(app), *final(app), handled),
{
    match app.display_container_state.focused_index {
        Some(0) | None => handle_shift_enter_on_input_line(app),
        Some(idx) => handle_shift_enter_on_task(app, idx),
    }
}


/// Handles a detected key combination and applies it to the app state
/// Main dispatcher function for handling key combinations
pub fn handle_key_combination(app: &mut App, combination: KeyCombination) -> (handled: bool)
    requires
        combination is ShiftEnter ==> old(app).next_id < u32::MAX - 1,
    ensures
        match combination {
            KeyCombination::CtrlUp | KeyCombination::CtrlDown => ctrl_navigation_step(
                *old(app),
                *final(app),
                handled,
            ),
            KeyCombination::ShiftEnter => shift_enter_key_step(*old(app), *final(app), handled),
            KeyCombination::CtrlEnter => ctrl_enter_key_step(*old(app), *final(app), handled),
            KeyCombination::NoCombination => !handled && *final(app) == *old(app),
        },
{
    match combination {
        KeyCombination::CtrlUp | KeyCombination::CtrlDown => handle_ctrl_navigation(app, combination),
        KeyCombination::ShiftEnter => handle_shift_enter(app),
        KeyCombination::CtrlEnter => handle_ctrl_enter(app),
        KeyCombination::NoCombination => false,
    }
}

} // verus!
