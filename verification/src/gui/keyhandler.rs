//! Keyboard handling of the graphical front end: the Enter key with its
//! modifiers, the arrow keys, and Ctrl with the arrow keys, applied to the
//! application state and to the text of the input field.

use vstd::prelude::*;
use crate::App;
use crate::commands::{Command, execute_command, execute_create_command, execute_add_subtask,
    parse_command, executed, is_parsed_command, create_applied, subtask_added, logged, edited_to,
    ran_parsed, lemma_parsed_commands_agree};
use crate::display_container::{DisplayView, sync_input, refresh_display, display_index_of};
use crate::keyhandler::{only_display_changed, focused_task_id, toggled, lists_active_tasks};
use crate::taskstore::{position_of_id, find_task_by_id, lemma_position_of_id};
use crate::text::{owned, concat, usize_to_string, decimal, lemma_decimal_digits};

verus! {

/// The keys pressed during one frame.
#[derive(Clone, Copy, Debug, PartialEq, Eq, Structural)]
pub struct FrameKeys {
    pub enter: bool,
    pub up: bool,
    pub down: bool,
}

/// Handles keyboard shortcuts and input events
pub struct KeyHandler {
    /// Whether shift key is currently pressed
    pub shift_pressed: bool,
    /// Whether control key is currently pressed
    pub ctrl_pressed: bool,
}

/// `new` is `old` with the display `v`.
pub open spec fn with_display(old: App, new: App, v: DisplayView) -> bool {
    &&& only_display_changed(old, new)
    &&& new.display_container_state@ == v
}

/// `new` is `old` with the display `v` and the message `msg` logged.
pub open spec fn logged_with_display(old: App, new: App, msg: Seq<char>, v: DisplayView) -> bool {
    &&& new.tasks@ == old.tasks@
    &&& new.next_id == old.next_id
    &&& new.tasks_file@ == old.tasks_file@
    &&& logged(old, new, msg)
    &&& new.show_help == old.show_help
    &&& new.app_mode == old.app_mode
    &&& new.pending_save == old.pending_save
    &&& new.display_container_state@ == v
}

/// The display `v` asking for the input field's focus on the next frame.
pub open spec fn asking_focus(v: DisplayView) -> DisplayView {
    DisplayView { request_focus_next_frame: true, ..v }
}

/// Ctrl+Enter on the task `id`: a nonempty text becomes its content, it is
/// completed, the input field asks for the focus, and the text is cleared.
pub open spec fn ctrl_enter_on(old: App, text: Seq<char>, id: u32, new: App, new_text: Seq<char>) -> bool {
    exists|edited: App, completed: App|
        #![trigger executed(edited, completed, Some(Command::CompleteById(id)))]
        (if text.len() == 0 {
            edited == old
        } else {
            edited_to(old, edited, id, text)
        }) && executed(edited, completed, Some(Command::CompleteById(id))) && with_display(
            completed,
            new,
            asking_focus(completed.display_container_state@),
        ) && new_text == Seq::<char>::empty()
}

/// Ctrl+Enter: on a focused task as `ctrl_enter_on` says, elsewhere nothing.
pub open spec fn ctrl_enter_step(old: App, text: Seq<char>, new: App, new_text: Seq<char>) -> bool {
    match focused_task_id(old.display_container_state@) {
        None => new == old && new_text == text,
        Some(id) => ctrl_enter_on(old, text, id, new, new_text),
    }
}

/// The focus one past the entry `di`, when that fits in a `usize`.
pub open spec fn focus_after(v: DisplayView, di: int) -> DisplayView {
    if di + 1 <= usize::MAX {
        DisplayView { focused_index: Some((di + 1) as usize), ..v }
    } else {
        v
    }
}

/// The message logged for a subtask created at entry `n`.
pub open spec fn subtask_message(n: int, parent_content: Seq<char>) -> Seq<char> {
    "Created subtask "@ + decimal(n as nat) + " under: "@ + parent_content
}

/// Shift+Enter with a nonempty text on the task `pid` at position `p`: the
/// text becomes its subtask, the task is unfolded, the subtask takes the
/// focus one past its entry and its creation is logged, and the text is
/// cleared.
pub open spec fn subtask_enter_on(
    old: App,
    text: Seq<char>,
    pid: u32,
    p: int,
    new: App,
    new_text: Seq<char>,
) -> bool {
    let d = old.display_container_state@;
    exists|added: App|
        #![trigger subtask_added(old, added, p, text)]
        subtask_added(old, added, p, text) && added.display_container_state@ == d && new_text
            == Seq::<char>::empty() && ({
            let d1 = if d.folded.contains(pid) {
                refresh_display(DisplayView { folded: toggled(d.folded, pid), ..d }, added.tasks@)
            } else {
                d
            };
            match display_index_of(d1, old.next_id) {
                Some(di) => if di + 1 <= usize::MAX {
                    logged_with_display(
                        added,
                        new,
                        subtask_message(di + 1, old.tasks@[p].content@),
                        focus_after(d1, di),
                    )
                } else {
                    with_display(added, new, d1)
                },
                None => with_display(added, new, d1),
            }
        })
}

/// Shift+Enter with a nonempty text: on the input line the text becomes a
/// new task; on a task it becomes a subtask of it, the task is unfolded and
/// the subtask takes the focus.  The text is cleared.
pub open spec fn shift_enter_step(old: App, text: Seq<char>, new: App, new_text: Seq<char>) -> bool {
    let d = old.display_container_state@;
    let unchanged = new == old && new_text == text;
    match d.focused_index {
        None => unchanged,
        Some(idx) => if idx == 0 {
            if text.len() == 0 {
                unchanged
            } else {
                exists|created: App|
                    #![trigger create_applied(old, created, text)]
                    create_applied(old, created, text) && created.display_container_state@ == d
                        && with_display(
                        created,
                        new,
                        match display_index_of(d, old.next_id) {
                            Some(di) => focus_after(d, di),
                            None => d,
                        },
                    ) && new_text == Seq::<char>::empty()
            }
        } else {
            match focused_task_id(d) {
                None => unchanged,
                Some(pid) => match position_of_id(old.tasks@, pid) {
                    None => unchanged,
                    Some(p) => if text.len() == 0 {
                        unchanged
                    } else {
                        subtask_enter_on(old, text, pid, p, new, new_text)
                    },
                },
            }
        },
    }
}

/// Enter on the task `id` with a nonempty text: the text becomes its
/// content and the input field asks for the focus; the text stays.
pub open spec fn edit_enter_on(old: App, text: Seq<char>, id: u32, new: App, new_text: Seq<char>) -> bool {
    exists|mid: App|
        #![trigger edited_to(old, mid, id, text)]
        edited_to(old, mid, id, text) && with_display(
            mid,
            new,
            asking_focus(mid.display_container_state@),
        ) && new_text == text
}

/// Enter alone with a nonempty text: on the input line the text runs as a
/// command and is cleared; on a task it becomes the task's content.
pub open spec fn plain_enter_step(old: App, text: Seq<char>, new: App, new_text: Seq<char>) -> bool {
    let d = old.display_container_state@;
    let unchanged = new == old && new_text == text;
    if text.len() == 0 {
        unchanged
    } else if d.focused_index is None || d.focused_index == Some(0usize) {
        exists|mid: App|
            #![trigger ran_parsed(old, mid, text)]
            ran_parsed(old, mid, text) && with_display(
                mid,
                new,
                asking_focus(mid.display_container_state@),
            ) && new_text == Seq::<char>::empty()
    } else {
        match focused_task_id(d) {
            Some(id) => edit_enter_on(old, text, id, new, new_text),
            None => unchanged,
        }
    }
}

/// The Enter key, with Ctrl taking precedence over Shift.
pub open spec fn enter_step(
    old: App,
    text: Seq<char>,
    ctrl: bool,
    shift: bool,
    new: App,
    new_text: Seq<char>,
) -> bool {
    if ctrl {
        ctrl_enter_step(old, text, new, new_text)
    } else if shift {
        shift_enter_step(old, text, new, new_text)
    } else {
        plain_enter_step(old, text, new, new_text)
    }
}

/// The display after the Up arrow, if it moves the focus: up by one entry,
/// never past the input line, with the input following the focus.
pub open spec fn moved_up(v: DisplayView, tasks: Seq<crate::taskstore::Task>) -> Option<DisplayView> {
    match v.focused_index {
        Some(i) => if i > 0 {
            Some(sync_input(DisplayView { focused_index: Some((i - 1) as usize), ..v }, tasks))
        } else {
            None
        },
        None => None,
    }
}

/// The display after the Down arrow, if it moves the focus: down by one
/// entry, never past the last task, with the input following the focus.
pub open spec fn moved_down(v: DisplayView, tasks: Seq<crate::taskstore::Task>) -> Option<DisplayView> {
    match v.focused_index {
        Some(i) => if i < v.display_to_id.len() {
            Some(sync_input(DisplayView { focused_index: Some((i + 1) as usize), ..v }, tasks))
        } else {
            None
        },
        None => None,
    }
}

/// The arrows of the graphical list step the focus by one entry and stop
/// at either end: on a display whose entries name tasks of the active
/// container, Up from entry `i > 0` goes to `i - 1` and Down from `i` below
/// the last entry to `i + 1`; Up on the input line and Down on the last
/// entry do not move it.
pub proof fn lemma_gui_arrows_step_by_one(v: DisplayView, tasks: Seq<crate::taskstore::Task>, i: usize)
    requires
        v.focused_index == Some(i),
        i <= v.display_to_id.len(),
        v.display_to_id.len() > 0,
        lists_active_tasks(v, tasks),
    ensures
        i > 0 ==> (moved_up(v, tasks) matches Some(m) && m.focused_index == Some((i - 1) as usize)),
        i == 0 ==> moved_up(v, tasks) is None,
        i < v.display_to_id.len() ==> (moved_down(v, tasks) matches Some(m) && m.focused_index == Some(
            (i + 1) as usize,
        )),
        i == v.display_to_id.len() ==> moved_down(v, tasks) is None,
{
    let p0 = position_of_id(tasks, v.display_to_id[0])->0;
    assert(position_of_id(tasks, v.display_to_id[0]) matches Some(p) && tasks[p].container
        == v.active_container);
    lemma_position_of_id(tasks, v.display_to_id[0]);
    assert(tasks[p0].container == v.active_container);
    assert(crate::display_container::has_task_in(tasks, v.active_container));
    assert forall|k: int| 0 <= k < v.display_to_id.len() implies (#[trigger] position_of_id(
        tasks,
        v.display_to_id[k],
    ) matches Some(p) && 0 <= p < tasks.len()) by {
        lemma_position_of_id(tasks, v.display_to_id[k]);
    }
}

/// The arrow keys without Ctrl: Up, then Down, each moving the focus and
/// copying the input into the text when it moves.
pub open spec fn arrow_step(
    old: App,
    text: Seq<char>,
    ctrl: bool,
    up: bool,
    down: bool,
    new: App,
    new_text: Seq<char>,
    handled: bool,
) -> bool {
    let d = old.display_container_state@;
    if ctrl {
        new == old && new_text == text && !handled
    } else {
        let m1 = if up {
            moved_up(d, old.tasks@)
        } else {
            None
        };
        let d1 = match m1 {
            Some(v) => v,
            None => d,
        };
        let m2 = if down {
            moved_down(d1, old.tasks@)
        } else {
            None
        };
        let d2 = match m2 {
            Some(v) => v,
            None => d1,
        };
        &&& with_display(old, new, d2)
        &&& new_text == if m1 is Some || m2 is Some {
            d2.input
        } else {
            text
        }
        &&& handled == (m1 is Some || m2 is Some)
    }
}

/// Ctrl with an arrow key: the focused task, when it has children, is
/// folded or unfolded, and the change is logged with the task's entry.
pub open spec fn toggle_step(old: App, ctrl: bool, up: bool, down: bool, new: App, handled: bool) -> bool {
    let d = old.display_container_state@;
    let unchanged = new == old && !handled;
    if ctrl && (up || down) {
        match focused_task_id(d) {
            Some(id) => match position_of_id(old.tasks@, id) {
                Some(p) => if old.tasks@[p].child_ids@.len() > 0 {
                    let d1 = refresh_display(
                        DisplayView { folded: toggled(d.folded, id), ..d },
                        old.tasks@,
                    );
                    &&& handled
                    &&& match display_index_of(d1, id) {
                        Some(di) => if di + 1 <= usize::MAX {
                            logged_with_display(
                                old,
                                new,
                                "Toggled expansion of task "@ + decimal((di + 1) as nat),
                                d1,
                            )
                        } else {
                            with_display(old, new, d1)
                        },
                        None => with_display(old, new, d1),
                    }
                } else {
                    unchanged
                },
                None => unchanged,
            },
            None => unchanged,
        }
    } else {
        unchanged
    }
}

/// What one frame's keys do, handled by `h`: Enter with the modifiers,
/// then the arrows without Ctrl, then Ctrl with an arrow, and last a
/// refresh of the display order; `handled` tells whether any key acted.
pub open spec fn input_handled(
    h: KeyHandler,
    old: App,
    text: Seq<char>,
    keys: FrameKeys,
    new: App,
    new_text: Seq<char>,
    handled: bool,
) -> bool {
    exists|a1: App, t1: Seq<char>, a2: App, t2: Seq<char>, a3: App, h2: bool, h3: bool|
        #![trigger arrow_step(a1, t1, h.ctrl_pressed, keys.up, keys.down, a2, t2, h2), toggle_step(a2, h.ctrl_pressed, keys.up, keys.down, a3, h3)]
        {
            &&& if keys.enter {
                enter_step(
                    old,
                    text,
                    h.ctrl_pressed,
                    h.shift_pressed,
                    a1,
                    t1,
                )
            } else {
                a1 == old && t1 == text
            }
            &&& arrow_step(a1, t1, h.ctrl_pressed, keys.up, keys.down, a2, t2, h2)
            &&& toggle_step(a2, h.ctrl_pressed, keys.up, keys.down, a3, h3)
            &&& with_display(
                a3,
                new,
                refresh_display(a3.display_container_state@, a3.tasks@),
            )
            &&& new_text == t2
            &&& handled == (keys.enter || h2 || h3)
        }
}

impl KeyHandler {
    /// Create a new key handler
    pub fn new() -> (h: Self)
        ensures
            !h.shift_pressed,
            !h.ctrl_pressed,
    {
        KeyHandler { shift_pressed: false, ctrl_pressed: false }
    }

    /// Update modifier key states from the current input
    pub fn update_modifiers(&mut self, shift: bool, ctrl: bool)
        ensures
            final(self).shift_pressed == shift,
            final(self).ctrl_pressed == ctrl,
    {
        self.shift_pressed = shift;
        self.ctrl_pressed = ctrl;
    }

    /// The Enter key with the current modifiers.
    fn handle_enter(&self, app: &mut App, input_text: &mut String)
        requires
            old(app).next_id < u32::MAX,
        ensures
            enter_step(
                *old(app),
                old(input_text)@,
                self.ctrl_pressed,
                self.shift_pressed,
                *final(app),
                final(input_text)@,
            ),
    {
        if self.ctrl_pressed {
            handle_ctrl_enter(app, input_text);
        } else if self.shift_pressed {
            handle_shift_enter(app, input_text);
        } else {
            handle_plain_enter(app, input_text);
        }
    }

    /// Handle keyboard input for task creation or editing: the keys pressed
    /// in this frame act on the app and on the text of the input field, and
    /// the display order is refreshed.  Returns whether a key was handled.
    pub fn handle_input(&mut self, app: &mut App, keys: FrameKeys, input_text: &mut String) -> (handled: bool)
        requires
            keys.enter ==> old(app).next_id < u32::MAX,
        ensures
            *final(self) == *old(self),
            input_handled(
                *old(self),
                *old(app),
                old(input_text)@,
                keys,
                *final(app),
                final(input_text)@,
                handled,
            ),
    {
        if keys.enter {
            self.handle_enter(app, input_text);
        }
        let ghost a1 = *app;
        let ghost t1 = input_text@;
        let h2 = if !self.ctrl_pressed {
            handle_arrows(app, input_text, keys.up, keys.down)
        } else {
            false
        };
        let ghost a2 = *app;
        let ghost t2 = input_text@;
        let h3 = if self.ctrl_pressed && (keys.up || keys.down) {
            toggle_focused(app, keys.up, keys.down)
        } else {
            false
        };
        let ghost a3 = *app;
        app.display_container_state.update_display_order(app.tasks.as_slice());
        assert(arrow_step(a1, t1, self.ctrl_pressed, keys.up, keys.down, a2, t2, h2));
        assert(toggle_step(a2, self.ctrl_pressed, keys.up, keys.down, a3, h3));
        keys.enter || h2 || h3
    }
}

/// Enter alone on a nonempty text, with the input line or nothing focused,
/// runs the command that `parse_command` makes of the text: the app ends as
/// `execute_command` leaves it, with the input field asking for the focus
/// and the display order refreshed again; the text is cleared and the key
/// counts as handled.
pub proof fn lemma_enter_submits_input(
    h: KeyHandler,
    old: App,
    text: Seq<char>,
    new: App,
    new_text: Seq<char>,
    handled: bool,
    c: Command,
)
    requires
        !h.ctrl_pressed,
        !h.shift_pressed,
        text.len() > 0,
        old.display_container_state@.focused_index is None
            || old.display_container_state@.focused_index == Some(0usize),
        is_parsed_command(c, text),
        input_handled(h, old, text, FrameKeys { enter: true, up: false, down: false }, new, new_text, handled),
    ensures
        handled,
        new_text == Seq::<char>::empty(),
        new.display_container_state@.request_focus_next_frame,
        exists|mid: App|
            #![trigger executed(old, mid, Some(c))]
            executed(old, mid, Some(c)) && with_display(
                mid,
                new,
                refresh_display(asking_focus(mid.display_container_state@), mid.tasks@),
            ),
{
    let keys = FrameKeys { enter: true, up: false, down: false };
    let (a1, t1, a2, t2, a3, h2, h3) = choose|
        a1: App,
        t1: Seq<char>,
        a2: App,
        t2: Seq<char>,
        a3: App,
        h2: bool,
        h3: bool,
    |
        #![trigger arrow_step(a1, t1, h.ctrl_pressed, keys.up, keys.down, a2, t2, h2), toggle_step(a2, h.ctrl_pressed, keys.up, keys.down, a3, h3)]
        {
            &&& enter_step(old, text, h.ctrl_pressed, h.shift_pressed, a1, t1)
            &&& arrow_step(a1, t1, h.ctrl_pressed, keys.up, keys.down, a2, t2, h2)
            &&& toggle_step(a2, h.ctrl_pressed, keys.up, keys.down, a3, h3)
            &&& with_display(a3, new, refresh_display(a3.display_container_state@, a3.tasks@))
            &&& new_text == t2
            &&& handled == (keys.enter || h2 || h3)
        };
    let mid = choose|mid: App|
        #![trigger ran_parsed(old, mid, text)]
        ran_parsed(old, mid, text) && with_display(
            mid,
            a1,
            asking_focus(mid.display_container_state@),
        ) && t1 == Seq::<char>::empty();
    let c2 = choose|c2: Command|
        #![trigger executed(old, mid, Some(c2))]
        is_parsed_command(c2, text) && executed(old, mid, Some(c2));
    lemma_parsed_commands_agree(old, mid, c2, c, text);
    assert(executed(old, mid, Some(c)));
}

/// Ctrl+Enter: the focused task takes the text as its content and is
/// completed.
fn handle_ctrl_enter(app: &mut App, input_text: &mut String)
    ensures
        ctrl_enter_step(*old(app), old(input_text)@, *final(app), final(input_text)@),
{
    if let Some(index) = app.display_container_state.focused_index {
        if index > 0 && index - 1 < app.display_container_state.display_to_id.len() {
            let task_id = app.display_container_state.display_to_id[index - 1];
            let ghost a0 = *app;
            if !input_text.as_str().is_empty() {
                let content = owned(input_text.as_str());
                let ghost c = Command::Edit(task_id, content);
                execute_command(app, Some(Command::Edit(task_id, content)));
                assert(executed(a0, *app, Some(c)));
                assert(edited_to(a0, *app, task_id, input_text@));
            }
            let ghost edited = *app;
            execute_command(app, Some(Command::CompleteById(task_id)));
            let ghost completed = *app;
            *input_text = String::new();
            app.display_container_state.request_focus_next_frame = true;
            assert(ctrl_enter_on(a0, old(input_text)@, task_id, *app, input_text@));
        }
    }
}

/// Shift+Enter: a new task on the input line, a subtask on a task.
fn handle_shift_enter(app: &mut App, input_text: &mut String)
    requires
        old(app).next_id < u32::MAX,
    ensures
        shift_enter_step(*old(app), old(input_text)@, *final(app), final(input_text)@),
{
    if let Some(index) = app.display_container_state.focused_index {
        if index == 0 {
            if !input_text.as_str().is_empty() {
                let new_task_id = execute_create_command(app, input_text.as_str());
                let ghost created = *app;
                *input_text = String::new();
                if let Some(display_idx) = app.display_container_state.get_display_index(new_task_id) {
                    if display_idx < usize::MAX {
                        app.display_container_state.focused_index = Some(display_idx + 1);
                    }
                }
                assert(create_applied(*old(app), created, old(input_text)@));
            }
        } else if index - 1 < app.display_container_state.display_to_id.len() {
            let parent_id = app.display_container_state.display_to_id[index - 1];
            proof {
                lemma_position_of_id(app.tasks@, parent_id);
            }
            if let Some(parent_idx) = find_task_by_id(app.tasks.as_slice(), parent_id) {
                let parent_content = owned(app.tasks[parent_idx].content.as_str());
                if !input_text.as_str().is_empty() {
                    let parent_ref = usize_to_string(parent_id as usize);
                    proof {
                        lemma_decimal_digits(parent_id as nat);
                    }
                    let ghost a0 = *app;
                    let subtask_id = execute_add_subtask(app, parent_ref.as_str(), input_text.as_str());
                    let ghost added = *app;
                    proof {
                        assert(parent_ref@ == decimal(parent_id as nat));
                        assert(subtask_added(a0, added, parent_idx as int, old(input_text)@));
                    }
                    *input_text = String::new();
                    if !app.display_container_state.is_task_expanded(parent_id) {
                        app.display_container_state.toggle_task_expansion(parent_id, app.tasks.as_slice());
                    }
                    if let Some(new_subtask_id) = subtask_id {
                        if let Some(display_idx) = app.display_container_state.get_display_index(new_subtask_id) {
                            if display_idx < usize::MAX {
                                app.display_container_state.focused_index = Some(display_idx + 1);
                                let head = concat("Created subtask ", usize_to_string(display_idx + 1).as_str());
                                let mid = concat(head.as_str(), " under: ");
                                let msg = concat(mid.as_str(), parent_content.as_str());
                                app.log_activity(msg);
                            }
                        }
                    }
                }
            }
        }
    }
}

/// Enter alone: a command on the input line, an edit on a task.
fn handle_plain_enter(app: &mut App, input_text: &mut String)
    requires
        old(app).next_id < u32::MAX,
    ensures
        plain_enter_step(*old(app), old(input_text)@, *final(app), final(input_text)@),
{
    if input_text.as_str().is_empty() {
        return;
    }
    let input = owned(input_text.as_str());
    match app.display_container_state.focused_index {
        Some(0) | None => {
            let command = parse_command(input);
            let ghost c = command;
            execute_command(app, Some(command));
            let ghost mid = *app;
            assert(is_parsed_command(c, old(input_text)@) && executed(*old(app), mid, Some(c)));
            *input_text = String::new();
            app.display_container_state.request_focus_next_frame = true;
            assert(ran_parsed(*old(app), mid, old(input_text)@));
        },
        Some(idx) => {
            if idx - 1 < app.display_container_state.display_to_id.len() {
                let task_id = app.display_container_state.display_to_id[idx - 1];
                let ghost c = Command::Edit(task_id, input);
                execute_command(app, Some(Command::Edit(task_id, input)));
                let ghost mid = *app;
                assert(executed(*old(app), mid, Some(c)));
                app.display_container_state.request_focus_next_frame = true;
                assert(edited_to(*old(app), mid, task_id, old(input_text)@));
                assert(edit_enter_on(*old(app), old(input_text)@, task_id, *app, input_text@));
            }
        },
    }
}

/// The arrow keys without Ctrl.
fn handle_arrows(app: &mut App, input_text: &mut String, up: bool, down: bool) -> (handled: bool)
    ensures
        arrow_step(*old(app), old(input_text)@, false, up, down, *final(app), final(input_text)@, handled),
{
    let mut handled = false;
    if up {
        if let Some(index) = app.display_container_state.focused_index {
            if index > 0 {
                app.display_container_state.focused_index = Some(index - 1);
                app.display_container_state.update_input_for_focus(app.tasks.as_slice());
                *input_text = owned(app.display_container_state.input_value());
                handled = true;
            }
        }
    }
    if down {
        if let Some(index) = app.display_container_state.focused_index {
            if index < app.display_container_state.display_to_id.len() {
                app.display_container_state.focused_index = Some(index + 1);
                app.display_container_state.update_input_for_focus(app.tasks.as_slice());
                *input_text = owned(app.display_container_state.input_value());
                handled = true;
            }
        }
    }
    handled
}

/// Ctrl with an arrow key: folds or unfolds the focused task.
fn toggle_focused(app: &mut App, up: bool, down: bool) -> (handled: bool)
    requires
        up || down,
    ensures
        toggle_step(*old(app), true, up, down, *final(app), handled),
{
    if let Some(index) = app.display_container_state.focused_index {
        if index > 0 && index - 1 < app.display_container_state.display_to_id.len() {
            let task_id = app.display_container_state.display_to_id[index - 1];
            proof {
                lemma_position_of_id(app.tasks@, task_id);
            }
            if let Some(p) = find_task_by_id(app.tasks.as_slice(), task_id) {
                if app.tasks[p].child_ids.len() > 0 {
                    app.display_container_state.toggle_task_expansion(task_id, app.tasks.as_slice());
                    if let Some(display_idx) = app.display_container_state.get_display_index(task_id) {
                        if display_idx < usize::MAX {
                            let msg = concat(
                                "Toggled expansion of task ",
                                usize_to_string(display_idx + 1).as_str(),
                            );
                            app.log_activity(msg);
                        }
                    }
                    return true;
                }
            }
        }
    }
    false
}

} // verus!
