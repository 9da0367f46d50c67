//! The task list of the graphical front end: its heading, the text of each
//! listed task, and what clicks on the list do.

use vstd::prelude::*;
use crate::App;
use crate::taskstore::{Task, TaskContainer, container_name, position_of_id, lemma_position_of_id,
    find_task_by_id};
use crate::display_container::{DisplayContainerState, DisplayView, is_expanded, refresh_display};
use crate::listing::{collect_rows, listed_rows, TaskRow};
use crate::task_index::{TaskIndex, join_path};
use crate::commands::{complete_applied, complete_display};
use crate::keyhandler::toggled;
use crate::gui::keyhandler::with_display;
use crate::text::{owned, concat};
use crate::tui::rendering::spaces;

verus! {

broadcast use vstd::std_specs::hash::group_hash_axioms;

/// The upper-case form of an ASCII lower-case letter; other characters
/// are kept.
pub open spec fn ascii_upper(c: char) -> char {
    if 'a' <= c && c <= 'z' {
        ((c as int) - 32) as char
    } else {
        c
    }
}

/// A name with its first letter in upper case.
pub open spec fn capitalized(s: Seq<char>) -> Seq<char> {
    if s.len() == 0 {
        s
    } else {
        seq![ascii_upper(s[0])] + s.skip(1)
    }
}

/// The heading of the task list: the container's name, capitalized.
pub fn container_heading(container: TaskContainer) -> (h: &'static str)
    ensures
        h@ == capitalized(container_name(container)),
{
    match container {
        TaskContainer::Taskpad => {
            proof {
                reveal_strlit("Taskpad");
                reveal_strlit("taskpad");
                assert("Taskpad"@ =~= capitalized("taskpad"@));
            }
            "Taskpad"
        },
        TaskContainer::Backburner => {
            proof {
                reveal_strlit("Backburner");
                reveal_strlit("backburner");
                assert("Backburner"@ =~= capitalized("backburner"@));
            }
            "Backburner"
        },
        TaskContainer::Shelved => {
            proof {
                reveal_strlit("Shelved");
                reveal_strlit("shelved");
                assert("Shelved"@ =~= capitalized("shelved"@));
            }
            "Shelved"
        },
        TaskContainer::Archived => {
            proof {
                reveal_strlit("Archived");
                reveal_strlit("archived");
                assert("Archived"@ =~= capitalized("archived"@));
            }
            "Archived"
        },
    }
}

/// The text of a listed task: its indentation, its index, a separator (a
/// period after a top-level index), a fold mark when it has children and is
/// folded, and its content.
pub open spec fn task_text(task: Task, path: Seq<usize>, depth: nat, folded: Set<u32>) -> Seq<char> {
    spaces(depth) + join_path(path) + (if depth == 0 {
        ". "@
    } else {
        " "@
    }) + (if task.child_ids@.len() > 0 && !is_expanded(folded, task.id) {
        "\u{25b6} "@
    } else {
        Seq::empty()
    }) + task.content@
}

/// Format a task for display, including indentation, index, status, etc.
pub fn format_task_text(
    task: &Task,
    task_index: &TaskIndex,
    depth: usize,
    display_state: &DisplayContainerState,
) -> (s: String)
    requires
        2 * depth <= usize::MAX,
    ensures
        s@ == task_text(*task, task_index@, depth as nat, display_state@.folded),
{
    let mut text = String::new();
    let mut i: usize = 0;
    while i < depth
        invariant
            i <= depth,
            text@ == spaces(i as nat),
        decreases depth - i,
    {
        text.push_str("  ");
        proof {
            reveal_strlit("  ");
            assert(text@ =~= spaces((i + 1) as nat));
        }
        i = i + 1;
    }
    text.push_str(task_index.to_string().as_str());
    if depth == 0 {
        text.push_str(". ");
    } else {
        text.push_str(" ");
    }
    if task.child_ids.len() > 0 {
        if !display_state.is_task_expanded(task.id) {
            text.push_str("\u{25b6} ");
        }
    }
    text.push_str(task.content.as_str());
    proof {
        assert(text@ =~= task_text(*task, task_index@, depth as nat, display_state@.folded));
    }
    text
}

/// The id of each listed task, its index, and its depth.
pub open spec fn task_data(tasks: Seq<Task>, rows: Seq<TaskRow>) -> Seq<(u32, Seq<usize>, int)> {
    rows.map_values(|r: TaskRow| (tasks[r.pos].id, r.path, r.path.len() - 1))
}

/// Collect task data for rendering: the listing of the display's container.
pub fn collect_task_data(tasks: &[Task], display_state: &DisplayContainerState) -> (data: Vec<(u32, TaskIndex, usize)>)
    ensures
        data@.map_values(|d: (u32, TaskIndex, usize)| (d.0, d.1@, d.2 as int)) == task_data(
            tasks@,
            listed_rows(tasks@, display_state@.folded, display_state@.active_container),
        ),
{
    let ghost all = listed_rows(tasks@, display_state@.folded, display_state@.active_container);
    let rows = collect_rows(tasks, display_state);
    let mut data: Vec<(u32, TaskIndex, usize)> = Vec::new();
    let mut k: usize = 0;
    while k < rows.len()
        invariant
            crate::listing::row_views(rows@) == all,
            crate::listing::rows_in_range(rows@, tasks@.len()),
            k <= rows@.len(),
            data@.map_values(|d: (u32, TaskIndex, usize)| (d.0, d.1@, d.2 as int)) == task_data(
                tasks@,
                all.take(k as int),
            ),
        decreases rows@.len() - k,
    {
        let p = rows[k].0;
        let index = rows[k].1.clone();
        let depth = index.path().len();
        proof {
            assert(all[k as int] == TaskRow { path: rows@[k as int].1@, pos: p as int });
        }
        let ghost prev = data@;
        let ghost entry = (tasks@[p as int].id, index@, depth - 1);
        data.push((tasks[p].id, index, depth - 1));
        proof {
            assert(all.take(k + 1) =~= all.take(k as int).push(all[k as int]));
            assert(data@.map_values(|d: (u32, TaskIndex, usize)| (d.0, d.1@, d.2 as int)) =~= prev.map_values(
                |d: (u32, TaskIndex, usize)| (d.0, d.1@, d.2 as int),
            ).push(entry));
            assert(task_data(tasks@, all.take(k + 1)) =~= task_data(tasks@, all.take(k as int)).push(
                entry,
            ));
            assert(data@.map_values(|d: (u32, TaskIndex, usize)| (d.0, d.1@, d.2 as int)) =~= task_data(
                tasks@,
                all.take(k + 1),
            ));
        }
        k = k + 1;
    }
    proof {
        assert(all.take(all.len() as int) =~= all);
    }
    data
}

/// What the list reported for one listed task during a frame: whether it
/// was clicked or double-clicked, the task whose check box was ticked, if
/// any, and the task's entry.
#[derive(Clone, Copy, Debug, PartialEq, Eq, Structural)]
pub struct TaskResponse {
    pub clicked: bool,
    pub double_clicked: bool,
    pub task_to_complete: Option<u32>,
    pub display_index: usize,
}

/// The id that a response names: the ticked task's, or zero.
pub open spec fn response_key(r: TaskResponse) -> u32 {
    match r.task_to_complete {
        Some(id) => id,
        None => 0,
    }
}

/// The display after a response's clicks: a click focuses the entry, and a
/// double click folds or unfolds the named task when it has children.
pub open spec fn clicked_display(v: DisplayView, tasks: Seq<Task>, r: TaskResponse) -> DisplayView {
    let v1 = if r.clicked {
        DisplayView { focused_index: Some(r.display_index), ..v }
    } else {
        v
    };
    if r.double_clicked {
        match position_of_id(tasks, response_key(r)) {
            Some(p) => if tasks[p].child_ids@.len() > 0 {
                refresh_display(DisplayView { folded: toggled(v1.folded, tasks[p].id), ..v1 }, tasks)
            } else {
                v1
            },
            None => v1,
        }
    } else {
        v1
    }
}

/// The input text after a response: a click copies the named task's
/// content into it.
pub open spec fn clicked_text(text: Seq<char>, tasks: Seq<Task>, r: TaskResponse) -> Seq<char> {
    if r.clicked {
        match position_of_id(tasks, response_key(r)) {
            Some(p) => tasks[p].content@,
            None => text,
        }
    } else {
        text
    }
}

/// `new` and `new_text` follow from `old` and `text` by one response: its
/// clicks, then the completion of a ticked task.
pub open spec fn response_step(old: App, text: Seq<char>, r: TaskResponse, new: App, new_text: Seq<char>) -> bool {
    let v = clicked_display(old.display_container_state@, old.tasks@, r);
    &&& new_text == clicked_text(text, old.tasks@, r)
    &&& match r.task_to_complete {
        Some(id) => exists|mid: App|
            #![trigger with_display(old, mid, v)]
            with_display(old, mid, v) && complete_applied(mid, new, position_of_id(mid.tasks@, id))
                && new.display_container_state@ == complete_display(
                mid,
                position_of_id(mid.tasks@, id),
            ),
        None => with_display(old, new, v),
    }
}

/// `states` runs from `old` and `text` to `new` and `new_text`, each step
/// one response, in order.
pub open spec fn response_chain(
    old: App,
    text: Seq<char>,
    rs: Seq<TaskResponse>,
    states: Seq<(App, Seq<char>)>,
    new: App,
    new_text: Seq<char>,
) -> bool {
    &&& states.len() == rs.len() + 1
    &&& states[0] == (old, text)
    &&& states.last() == (new, new_text)
    &&& forall|i: int|
        0 <= i < rs.len() ==> response_step(
            #[trigger] states[i].0,
            states[i].1,
            rs[i],
            states[i + 1].0,
            states[i + 1].1,
        )
}

/// Handles one response of the list.
fn handle_task_response(app: &mut App, input_text: &mut String, r: TaskResponse)
    ensures
        response_step(*old(app), old(input_text)@, r, *final(app), final(input_text)@),
{
    let key = match r.task_to_complete {
        Some(id) => id,
        None => 0,
    };
    proof {
        lemma_position_of_id(app.tasks@, key);
    }
    // Handle click to select task
    if r.clicked {
        app.display_container_state.focused_index = Some(r.display_index);
        if let Some(p) = find_task_by_id(app.tasks.as_slice(), key) {
            *input_text = owned(app.tasks[p].content.as_str());
        }
    }
    // Handle double-click to toggle expansion
    if r.double_clicked {
        if let Some(p) = find_task_by_id(app.tasks.as_slice(), key) {
            if app.tasks[p].child_ids.len() > 0 {
                let id = app.tasks[p].id;
                app.display_container_state.toggle_task_expansion(id, app.tasks.as_slice());
            }
        }
    }
    let ghost mid = *app;
    assert(with_display(*old(app), mid, clicked_display(old(app).display_container_state@, old(app).tasks@, r)));
    // Handle task completion
    if let Some(task_id) = r.task_to_complete {
        crate::commands::execute_complete_by_id_command(app, task_id);
    }
}

/// Handle UI interactions after rendering is complete: each listed task's
/// response, in order.
pub fn handle_task_responses(app: &mut App, input_text: &mut String, responses: &Vec<TaskResponse>)
    ensures
        exists|states: Seq<(App, Seq<char>)>|
            response_chain(
                *old(app),
                old(input_text)@,
                responses@,
                states,
                *final(app),
                final(input_text)@,
            ),
{
    let mut k: usize = 0;
    let ghost mut states: Seq<(App, Seq<char>)> = seq![(*app, input_text@)];
    while k < responses.len()
        invariant
            k <= responses@.len(),
            response_chain(
                *old(app),
                old(input_text)@,
                responses@.take(k as int),
                states,
                *app,
                input_text@,
            ),
        decreases responses@.len() - k,
    {
        let ghost prev = states;
        handle_task_response(app, input_text, responses[k]);
        proof {
            states = prev.push((*app, input_text@));
            assert forall|i: int| 0 <= i < k + 1 implies response_step(
                #[trigger] states[i].0,
                states[i].1,
                responses@.take(k + 1)[i],
                states[i + 1].0,
                states[i + 1].1,
            ) by {
                if i < k {
                    assert(states[i] == prev[i]);
                    assert(states[i + 1] == prev[i + 1]);
                    assert(responses@.take(k + 1)[i] == responses@.take(k as int)[i]);
                }
            }
        }
        k = k + 1;
    }
    proof {
        assert(responses@.take(responses@.len() as int) =~= responses@);
    }
}

/// A click on the entry line focuses it and clears the input text.
pub fn entry_clicked(app: &mut App, input_text: &mut String)
    ensures
        with_display(
            *old(app),
            *final(app),
            DisplayView { focused_index: Some(0), ..old(app).display_container_state@ },
        ),
        final(input_text)@ == Seq::<char>::empty(),
{
    app.display_container_state.focused_index = Some(0);
    *input_text = String::new();
}

/// A focused task is highlighted in the outliner's mode only.
pub fn should_highlight(is_focused: bool, mode: crate::commands::AppMode) -> (b: bool)
    ensures
        b == (is_focused && mode == crate::commands::AppMode::Pkm),
{
    is_focused && mode == crate::commands::AppMode::Pkm
}

/// The task to complete after its check box changed: the task, when the
/// box became ticked.
pub fn checkbox_completion(task_id: u32, changed: bool, checked: bool) -> (r: Option<u32>)
    ensures
        r == if changed && checked {
            Some(task_id)
        } else {
            None
        },
{
    if changed && checked {
        Some(task_id)
    } else {
        None
    }
}

/// The label under the input field: the current mode.
pub fn mode_label(mode: crate::commands::AppMode) -> (s: &'static str)
    ensures
        s@ == match mode {
            crate::commands::AppMode::Pkm => "PKM Mode"@,
            crate::commands::AppMode::Feed => "Feed Mode"@,
        },
{
    match mode {
        crate::commands::AppMode::Pkm => "PKM Mode",
        crate::commands::AppMode::Feed => "Feed Mode",
    }
}

/// The hint shown in the empty input field, by mode.
pub fn input_hint(mode: crate::commands::AppMode) -> (s: &'static str)
    ensures
        s@ == match mode {
            crate::commands::AppMode::Pkm => "Enter task or command..."@,
            crate::commands::AppMode::Feed => "Enter search query for Genius Feed..."@,
        },
{
    match mode {
        crate::commands::AppMode::Feed => "Enter search query for Genius Feed...",
        crate::commands::AppMode::Pkm => "Enter task or command...",
    }
}

/// The help text of the graphical front end.
pub fn help_text() -> (s: &'static str)
    ensures
        s@ == "Help: Enter = execute | Shift+Enter = subtask | Ctrl+Enter = toggle done | Ctrl+Up/Down = expand/collapse | Shift+Tab = switch mode"@,
{
    "Help: Enter = execute | Shift+Enter = subtask | Ctrl+Enter = toggle done | Ctrl+Up/Down = expand/collapse | Shift+Tab = switch mode"
}

/// Whether the input field should take the focus in this frame; the
/// request is used up.
pub fn take_focus_request(state: &mut DisplayContainerState) -> (b: bool)
    ensures
        b == old(state)@.request_focus_next_frame,
        final(state)@ == (DisplayView { request_focus_next_frame: false, ..old(state)@ }),
{
    let b = state.request_focus_next_frame;
    state.request_focus_next_frame = false;
    b
}

} // verus!
