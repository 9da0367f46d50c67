//! Command parsing and execution: turns user input into task operations.

use vstd::prelude::*;
use crate::App;
use crate::taskstore::{Task, TaskContainer, TaskStatus, position_of_id, lemma_position_of_id,
    find_task_by_id, find_task_by_content, content_match, raw_scores, opt_int, is_fresh_task,
    container_name};
use crate::display_container::{DisplayView, refresh_display, display_index_of, input_after_request};
use crate::keyhandler::{TermKey, NavigationKey, navigated, only_display_changed, focused_task_id,
    handle_navigation_keys};
use crate::text::{chars_of, strip_prefix, has_prefix, trim_ws, all_digits, parse_usize,
    parse_usize_chars, concat, owned};

verus! {

/// Whether keyboard input drives the task outliner or the Genius feed
#[derive(Debug, Clone, Copy, PartialEq, Eq, Structural)]
pub enum AppMode {
    /// Personal knowledge management: the task outliner
    Pkm,
    /// The Genius feed of suggestions
    Feed,
}

/// The other mode: the outliner and the feed take turns.
pub fn toggle_app_mode(app: &App, mode: AppMode) -> (m: AppMode)
    ensures
        m == match mode {
            AppMode::Pkm => AppMode::Feed,
            AppMode::Feed => AppMode::Pkm,
        },
{
    match mode {
        AppMode::Pkm => AppMode::Feed,
        AppMode::Feed => AppMode::Pkm,
    }
}

/// Commands that can be executed by the user
pub enum Command {
    Create(String),
    Complete(String),
    CompleteById(u32),
    Delete(String),
    MoveToTaskpad(String),
    MoveToBackburner(String),
    MoveToShelved(String),
    /// (task_id, new_content)
    Edit(u32, String),
    /// Focus on a task by index or content
    Focus(String),
}

/// `c` is what `parse_command` makes of the input `s`: the first command
/// word that prefixes the input, with the rest of the input as its argument,
/// or else a task to create with the whole input.
pub open spec fn is_parsed_command(c: Command, s: Seq<char>) -> bool {
    if has_prefix(s, "complete "@) {
        c matches Command::Complete(q) && q@ == s.skip("complete "@.len() as int)
    } else if has_prefix(s, "delete "@) {
        c matches Command::Delete(q) && q@ == s.skip("delete "@.len() as int)
    } else if has_prefix(s, "move to taskpad "@) {
        c matches Command::MoveToTaskpad(q) && q@ == s.skip("move to taskpad "@.len() as int)
    } else if has_prefix(s, "move to backburner "@) {
        c matches Command::MoveToBackburner(q) && q@ == s.skip(
            "move to backburner "@.len() as int,
        )
    } else if has_prefix(s, "move to shelved "@) {
        c matches Command::MoveToShelved(q) && q@ == s.skip("move to shelved "@.len() as int)
    } else if has_prefix(s, "focus "@) {
        c matches Command::Focus(q) && q@ == s.skip("focus "@.len() as int)
    } else {
        c matches Command::Create(q) && q@ == s
    }
}

/// Parses the input string into a Command
pub fn parse_command(input: String) -> (c: Command)
    ensures
        is_parsed_command(c, input@),
{
    let v = chars_of(input.as_str());
    if let Some(q) = strip_prefix(&v, "complete ") {
        return Command::Complete(q);
    }
    if let Some(q) = strip_prefix(&v, "delete ") {
        return Command::Delete(q);
    }
    if let Some(q) = strip_prefix(&v, "move to taskpad ") {
        return Command::MoveToTaskpad(q);
    }
    if let Some(q) = strip_prefix(&v, "move to backburner ") {
        return Command::MoveToBackburner(q);
    }
    if let Some(q) = strip_prefix(&v, "move to shelved ") {
        return Command::MoveToShelved(q);
    }
    if let Some(q) = strip_prefix(&v, "focus ") {
        return Command::Focus(q);
    }
    Command::Create(input)
}

/// Result of executing a command
pub enum CommandResult {
    TaskCompleted { content: String },
    TaskAlreadyArchived(String),
    NoMatchingTask,
}

/// Result of focusing on a task
pub enum FocusResult {
    Focused { content: String },
    NoMatchingTask,
}

/// The task id that a query names when it is a display index: a string of
/// ASCII digits whose value is a position of the display (1-based).
pub open spec fn index_query_target(display: DisplayView, q: Seq<char>) -> Option<u32> {
    if all_digits(q) {
        match parse_usize(q) {
            Some(n) => if 1 <= n && n <= display.display_to_id.len() {
                Some(display.display_to_id[n - 1])
            } else {
                None
            },
            None => None,
        }
    } else {
        None
    }
}

/// The position of the task that a query names: the query is trimmed; a
/// display index names the task listed there, anything else is matched
/// against task contents.
pub open spec fn find_target(tasks: Seq<Task>, display: DisplayView, query: Seq<char>) -> Option<int> {
    let q = trim_ws(query);
    match index_query_target(display, q) {
        Some(id) => position_of_id(tasks, id),
        None => content_match(tasks, q, raw_scores(tasks, q), display.active_container),
    }
}

/// Whether every character is an ASCII digit.
fn all_ascii_digits(v: &Vec<char>) -> (b: bool)
    ensures
        b == all_digits(v@),
{
    let mut i: usize = 0;
    while i < v.len()
        invariant
            i <= v@.len(),
            forall|k: int| 0 <= k < i ==> crate::text::is_digit(#[trigger] v@[k]),
        decreases v.len() - i,
    {
        if !('0' <= v[i] && v[i] <= '9') {
            return false;
        }
        i = i + 1;
    }
    true
}

/// Finds a task by display index or content match
pub fn find_task(app: &App, query: &str) -> (r: Option<usize>)
    ensures
        opt_int(r) == find_target(app.tasks@, app.display_container_state@, query@),
        r matches Some(i) ==> i < app.tasks@.len(),
{
    let query = query.trim();
    let qv = chars_of(query);
    if all_ascii_digits(&qv) {
        proof {
            assert(qv@.subrange(0, qv@.len() as int) =~= qv@);
        }
        if let Some(index) = parse_usize_chars(&qv, 0, qv.len()) {
            if let Some(task_id) = app.display_container_state.get_task_id(index) {
                proof {
                    lemma_position_of_id(app.tasks@, task_id);
                }
                return find_task_by_id(app.tasks.as_slice(), task_id);
            }
        }
    }
    find_task_by_content(app.tasks.as_slice(), query, app.display_container_state.active_container)
}

/// The task completed: done and archived.
pub open spec fn completed(t: Task) -> Task {
    Task { status: TaskStatus::Done, container: TaskContainer::Archived, ..t }
}

/// The task at `target`, when there is one and it is not archived yet.
pub open spec fn completes(tasks: Seq<Task>, target: Option<int>) -> bool {
    target matches Some(i) && tasks[i].container != TaskContainer::Archived
}

/// The tasks after completing the target task.
pub open spec fn tasks_after_complete(tasks: Seq<Task>, target: Option<int>) -> Seq<Task> {
    if completes(tasks, target) {
        tasks.update(target->0, completed(tasks[target->0]))
    } else {
        tasks
    }
}

/// The activity message that reports completing the target task.
pub open spec fn complete_message(tasks: Seq<Task>, target: Option<int>) -> Seq<char> {
    match target {
        None => "No matching task found"@,
        Some(i) => if tasks[i].container == TaskContainer::Archived {
            "Task '"@ + tasks[i].content@ + "' is already archived"@
        } else {
            "Completed task: "@ + tasks[i].content@
        },
    }
}

/// The target of a completion: the first task with the id when one is
/// given, else the task the query names.
pub open spec fn completion_target(app: App, query: Seq<char>, task_id: Option<u32>) -> Option<int> {
    match task_id {
        Some(id) => position_of_id(app.tasks@, id),
        None => find_target(app.tasks@, app.display_container_state@, query),
    }
}

/// The fields other than the tasks, the display and the log are unchanged.
pub open spec fn same_settings(a: App, b: App) -> bool {
    &&& a.next_id == b.next_id
    &&& a.tasks_file@ == b.tasks_file@
    &&& a.show_help == b.show_help
    &&& a.app_mode == b.app_mode
}

/// Completes a task by content match or task ID
pub fn complete_task(app: &mut App, query: &str, task_id: Option<u32>) -> (r: CommandResult)
    ensures
        ({
            let target = completion_target(*old(app), query@, task_id);
            &&& final(app).tasks@ == tasks_after_complete(old(app).tasks@, target)
            &&& final(app).display_container_state@ == if completes(old(app).tasks@, target) {
                refresh_display(old(app).display_container_state@, final(app).tasks@)
            } else {
                old(app).display_container_state@
            }
            &&& final(app).activity_log@ == old(app).activity_log@
            &&& final(app).pending_save == old(app).pending_save
            &&& same_settings(*old(app), *final(app))
            &&& match target {
                None => r is NoMatchingTask,
                Some(i) => if old(app).tasks@[i].container == TaskContainer::Archived {
                    r matches CommandResult::TaskAlreadyArchived(c) && c@ == old(app).tasks@[i].content@
                } else {
                    r matches CommandResult::TaskCompleted { content } && content@ == old(
                        app,
                    ).tasks@[i].content@
                },
            }
        }),
{
    let idx = match task_id {
        Some(id) => find_task_by_id(app.tasks.as_slice(), id),
        None => find_task(app, query),
    };
    proof {
        match task_id {
            Some(id) => lemma_position_of_id(app.tasks@, id),
            None => {},
        }
    }
    match idx {
        None => CommandResult::NoMatchingTask,
        Some(i) => {
            if app.tasks[i].container == TaskContainer::Archived {
                return CommandResult::TaskAlreadyArchived(app.tasks[i].content.clone());
            }
            let content = app.tasks[i].content.clone();
            app.tasks[i].complete();
            assert(app.tasks@ =~= tasks_after_complete(
                old(app).tasks@,
                completion_target(*old(app), query@, task_id),
            ));
            app.display_container_state.update_display_order(app.tasks.as_slice());
            CommandResult::TaskCompleted { content }
        },
    }
}


/// The log of `new` is the log of `old` with `msg` added as the newest.
pub open spec fn logged(old: App, new: App, msg: Seq<char>) -> bool {
    new.activity_log@ == seq![msg] + old.activity_log@
}

/// The task list, id counter, log and save flag after creating a task.
pub open spec fn create_applied(old: App, new: App, content: Seq<char>) -> bool {
    &&& new.tasks@.len() == old.tasks@.len() + 1
    &&& new.tasks@.drop_last() == old.tasks@
    &&& is_fresh_task(new.tasks@.last(), old.next_id, content)
    &&& new.next_id == old.next_id + 1
    &&& logged(old, new, "Task added"@)
    &&& new.pending_save
    &&& new.tasks_file@ == old.tasks_file@
    &&& new.show_help == old.show_help
    &&& new.app_mode == old.app_mode
}

/// The task list, log and save flag after completing the target task.
pub open spec fn complete_applied(old: App, new: App, target: Option<int>) -> bool {
    &&& new.tasks@ == tasks_after_complete(old.tasks@, target)
    &&& logged(old, new, complete_message(old.tasks@, target))
    &&& new.pending_save == old.pending_save
    &&& same_settings(old, new)
}

/// The display after completing the target task, before any later refresh.
pub open spec fn complete_display(old: App, target: Option<int>) -> DisplayView {
    if completes(old.tasks@, target) {
        refresh_display(old.display_container_state@, tasks_after_complete(old.tasks@, target))
    } else {
        old.display_container_state@
    }
}

/// The task list, log and save flag after deleting the target task.
pub open spec fn delete_applied(old: App, new: App, target: Option<int>) -> bool {
    &&& match target {
        Some(i) => {
            &&& new.tasks@ == old.tasks@.remove(i)
            &&& logged(old, new, "Deleted task: "@ + old.tasks@[i].content@)
            &&& new.pending_save
        },
        None => {
            &&& new.tasks@ == old.tasks@
            &&& logged(old, new, "No matching task found"@)
            &&& new.pending_save == old.pending_save
        },
    }
    &&& same_settings(old, new)
}

/// The task list, log and save flag after moving the target task to a
/// container.
pub open spec fn move_applied(old: App, new: App, target: Option<int>, c: TaskContainer) -> bool {
    &&& match target {
        Some(i) => if old.tasks@[i].container == c {
            &&& new.tasks@ == old.tasks@
            &&& logged(old, new, "Task already in "@ + container_name(c))
            &&& new.pending_save == old.pending_save
        } else {
            &&& new.tasks@ == old.tasks@.update(i, Task { container: c, ..old.tasks@[i] })
            &&& logged(
                old,
                new,
                "Moved task to "@ + container_name(c) + ": "@ + old.tasks@[i].content@,
            )
            &&& new.pending_save
        },
        None => {
            &&& new.tasks@ == old.tasks@
            &&& logged(old, new, "No matching task found"@)
            &&& new.pending_save == old.pending_save
        },
    }
    &&& same_settings(old, new)
}

/// The display after focusing the target task: the task takes the focus and
/// its content fills the input, when the task is listed.
pub open spec fn focus_display(old: App, target: Option<int>) -> DisplayView {
    match target {
        Some(i) => match display_index_of(old.display_container_state@, old.tasks@[i].id) {
            Some(d) => {
                let c = old.tasks@[i].content@;
                DisplayView {
                    focused_index: Some(d as usize),
                    input: c,
                    cursor: c.len(),
                    ..old.display_container_state@
                }
            },
            None => old.display_container_state@,
        },
        None => old.display_container_state@,
    }
}

/// Focusing the target task succeeds.
pub open spec fn focuses(old: App, target: Option<int>) -> bool {
    target matches Some(i) && display_index_of(old.display_container_state@, old.tasks@[i].id) is Some
}

/// The log after focusing the target task; the tasks do not change.
pub open spec fn focus_applied(old: App, new: App, target: Option<int>) -> bool {
    &&& new.tasks@ == old.tasks@
    &&& if focuses(old, target) {
        logged(old, new, "Focused on task: "@ + old.tasks@[target->0].content@)
    } else {
        logged(old, new, "No matching task found"@)
    }
    &&& new.pending_save == old.pending_save
    &&& same_settings(old, new)
}

/// The task list, log and save flag after replacing the content of the
/// first task with the id.
pub open spec fn edit_applied(old: App, new: App, id: u32, content: String) -> bool {
    &&& match position_of_id(old.tasks@, id) {
        Some(i) => {
            &&& new.tasks@ == old.tasks@.update(i, Task { content, ..old.tasks@[i] })
            &&& logged(old, new, "Task updated"@)
            &&& new.pending_save
        },
        None => {
            &&& new.tasks@ == old.tasks@
            &&& new.activity_log@ == old.activity_log@
            &&& new.pending_save == old.pending_save
        },
    }
    &&& same_settings(old, new)
}

/// Execute a create command; returns the id of the new task
pub fn execute_create_command(app: &mut App, content: &str) -> (id: u32)
    requires
        old(app).next_id < u32::MAX,
    ensures
        id == old(app).next_id,
        create_applied(*old(app), *final(app), content@),
        final(app).display_container_state@ == old(app).display_container_state@,
{
    let id = app.next_id;
    let task = Task::new(id, owned(content));
    app.next_id = app.next_id + 1;
    app.tasks.push(task);
    assert(app.tasks@.drop_last() =~= old(app).tasks@);
    app.log_activity(owned("Task added"));
    app.pending_save = true;
    id
}

/// Logs the outcome of a completion.
fn log_complete_result(app: &mut App, result: CommandResult)
    ensures
        final(app).tasks@ == old(app).tasks@,
        final(app).display_container_state@ == old(app).display_container_state@,
        final(app).pending_save == old(app).pending_save,
        same_settings(*old(app), *final(app)),
        match result {
            CommandResult::TaskCompleted { content } => logged(
                *old(app),
                *final(app),
                "Completed task: "@ + content@,
            ),
            CommandResult::TaskAlreadyArchived(content) => logged(
                *old(app),
                *final(app),
                "Task '"@ + content@ + "' is already archived"@,
            ),
            CommandResult::NoMatchingTask => logged(*old(app), *final(app), "No matching task found"@),
        },
{
    match result {
        CommandResult::TaskCompleted { content } => {
            app.log_activity(concat("Completed task: ", content.as_str()));
        },
        CommandResult::TaskAlreadyArchived(content) => {
            let m = concat("Task '", content.as_str());
            app.log_activity(concat(m.as_str(), "' is already archived"));
        },
        CommandResult::NoMatchingTask => {
            app.log_activity(owned("No matching task found"));
        },
    }
}

/// Execute a complete command
pub fn execute_complete_command(app: &mut App, query: &str)
    ensures
        complete_applied(*old(app), *final(app), completion_target(*old(app), query@, None)),
        final(app).display_container_state@ == complete_display(
            *old(app),
            completion_target(*old(app), query@, None),
        ),
{
    let result = complete_task(app, query, None);
    log_complete_result(app, result);
}

/// Execute a complete by ID command
pub fn execute_complete_by_id_command(app: &mut App, task_id: u32)
    ensures
        complete_applied(*old(app), *final(app), position_of_id(old(app).tasks@, task_id)),
        final(app).display_container_state@ == complete_display(
            *old(app),
            position_of_id(old(app).tasks@, task_id),
        ),
{
    let result = complete_task(app, "", Some(task_id));
    log_complete_result(app, result);
}

/// Execute a delete command
pub fn execute_delete_command(app: &mut App, query: &str)
    ensures
        delete_applied(
            *old(app),
            *final(app),
            find_target(old(app).tasks@, old(app).display_container_state@, query@),
        ),
        final(app).display_container_state@ == old(app).display_container_state@,
{
    if let Some(index) = find_task(app, query) {
        let content = app.tasks[index].content.clone();
        app.tasks.remove(index);
        app.log_activity(concat("Deleted task: ", content.as_str()));
        app.pending_save = true;
    } else {
        app.log_activity(owned("No matching task found"));
    }
}

/// Execute a move command
pub fn execute_move_command(app: &mut App, query: &str, target_container: TaskContainer)
    ensures
        move_applied(
            *old(app),
            *final(app),
            find_target(old(app).tasks@, old(app).display_container_state@, query@),
            target_container,
        ),
        final(app).display_container_state@ == old(app).display_container_state@,
{
    if let Some(index) = find_task(app, query) {
        if app.tasks[index].container == target_container {
            app.log_activity(concat("Task already in ", target_container.display_name()));
        } else {
            let content = app.tasks[index].content.clone();
            let container_name = target_container.display_name();
            app.tasks[index].container = target_container;
            app.pending_save = true;
            let m = concat("Moved task to ", container_name);
            let m = concat(m.as_str(), ": ");
            app.log_activity(concat(m.as_str(), content.as_str()));
        }
    } else {
        app.log_activity(owned("No matching task found"));
    }
}

/// Execute a move to taskpad command
pub fn execute_move_to_taskpad_command(app: &mut App, query: &str)
    ensures
        move_applied(
            *old(app),
            *final(app),
            find_target(old(app).tasks@, old(app).display_container_state@, query@),
            TaskContainer::Taskpad,
        ),
        final(app).display_container_state@ == old(app).display_container_state@,
{
    execute_move_command(app, query, TaskContainer::Taskpad);
}

/// Execute a move to backburner command
pub fn execute_move_to_backburner_command(app: &mut App, query: &str)
    ensures
        move_applied(
            *old(app),
            *final(app),
            find_target(old(app).tasks@, old(app).display_container_state@, query@),
            TaskContainer::Backburner,
        ),
        final(app).display_container_state@ == old(app).display_container_state@,
{
    execute_move_command(app, query, TaskContainer::Backburner);
}

/// Execute a move to shelved command
pub fn execute_move_to_shelved_command(app: &mut App, query: &str)
    ensures
        move_applied(
            *old(app),
            *final(app),
            find_target(old(app).tasks@, old(app).display_container_state@, query@),
            TaskContainer::Shelved,
        ),
        final(app).display_container_state@ == old(app).display_container_state@,
{
    execute_move_command(app, query, TaskContainer::Shelved);
}

/// Focuses on a task by content match or display index
pub fn focus_task(app: &mut App, query: &str) -> (r: FocusResult)
    ensures
        ({
            let target = find_target(old(app).tasks@, old(app).display_container_state@, query@);
            &&& final(app).tasks@ == old(app).tasks@
            &&& final(app).activity_log@ == old(app).activity_log@
            &&& final(app).pending_save == old(app).pending_save
            &&& same_settings(*old(app), *final(app))
            &&& final(app).display_container_state@ == focus_display(*old(app), target)
            &&& if focuses(*old(app), target) {
                r matches FocusResult::Focused { content } && content@ == old(
                    app,
                ).tasks@[target->0].content@
            } else {
                r is NoMatchingTask
            }
        }),
{
    if let Some(index) = find_task(app, query) {
        let content = app.tasks[index].content.clone();
        if let Some(display_idx) = app.display_container_state.get_display_index(app.tasks[index].id) {
            app.display_container_state.focused_index = Some(display_idx);
            app.display_container_state.set_input(content.as_str());
            FocusResult::Focused { content }
        } else {
            FocusResult::NoMatchingTask
        }
    } else {
        FocusResult::NoMatchingTask
    }
}

/// Executes the focus command
pub fn execute_focus_command(app: &mut App, query: &str)
    ensures
        focus_applied(
            *old(app),
            *final(app),
            find_target(old(app).tasks@, old(app).display_container_state@, query@),
        ),
        final(app).display_container_state@ == focus_display(
            *old(app),
            find_target(old(app).tasks@, old(app).display_container_state@, query@),
        ),
{
    match focus_task(app, query) {
        FocusResult::Focused { content } => {
            app.log_activity(concat("Focused on task: ", content.as_str()));
        },
        FocusResult::NoMatchingTask => {
            app.log_activity(owned("No matching task found"));
        },
    }
}

/// Replaces the content of the first task with the id.
fn execute_edit_command(app: &mut App, task_id: u32, content: String)
    ensures
        edit_applied(*old(app), *final(app), task_id, content),
        final(app).display_container_state@ == old(app).display_container_state@,
{
    proof {
        lemma_position_of_id(app.tasks@, task_id);
    }
    if let Some(i) = find_task_by_id(app.tasks.as_slice(), task_id) {
        app.tasks[i].update_content(content);
        app.log_activity(owned("Task updated"));
        app.pending_save = true;
    }
}

/// What a command does to the tasks, id counter, log and save flag.
pub open spec fn command_applied(old: App, new: App, command: Option<Command>) -> bool {
    let d = old.display_container_state@;
    match command {
        None => {
            &&& new.tasks@ == old.tasks@
            &&& logged(old, new, "Invalid command"@)
            &&& new.pending_save == old.pending_save
            &&& same_settings(old, new)
        },
        Some(Command::Create(content)) => create_applied(old, new, content@),
        Some(Command::Complete(q)) => complete_applied(old, new, find_target(old.tasks@, d, q@)),
        Some(Command::CompleteById(id)) => complete_applied(old, new, position_of_id(old.tasks@, id)),
        Some(Command::Delete(q)) => delete_applied(old, new, find_target(old.tasks@, d, q@)),
        Some(Command::MoveToTaskpad(q)) => move_applied(
            old,
            new,
            find_target(old.tasks@, d, q@),
            TaskContainer::Taskpad,
        ),
        Some(Command::MoveToBackburner(q)) => move_applied(
            old,
            new,
            find_target(old.tasks@, d, q@),
            TaskContainer::Backburner,
        ),
        Some(Command::MoveToShelved(q)) => move_applied(
            old,
            new,
            find_target(old.tasks@, d, q@),
            TaskContainer::Shelved,
        ),
        Some(Command::Focus(q)) => focus_applied(old, new, find_target(old.tasks@, d, q@)),
        Some(Command::Edit(id, content)) => edit_applied(old, new, id, content),
    }
}

/// The display as a command leaves it, before the refresh that follows
/// every command.
pub open spec fn command_display(old: App, command: Option<Command>) -> DisplayView {
    let d = old.display_container_state@;
    match command {
        Some(Command::Complete(q)) => complete_display(old, find_target(old.tasks@, d, q@)),
        Some(Command::CompleteById(id)) => complete_display(old, position_of_id(old.tasks@, id)),
        Some(Command::Focus(q)) => focus_display(old, find_target(old.tasks@, d, q@)),
        _ => d,
    }
}

/// `new` is the app after `execute_command` ran the command on `old`.
pub open spec fn executed(old: App, new: App, command: Option<Command>) -> bool {
    &&& command_applied(old, (App { show_help: old.show_help, ..new }), command)
    &&& new.display_container_state@ == refresh_display(command_display(old, command), new.tasks@)
    &&& !new.show_help
}

/// Executes a command, updating the app state as needed: the command takes
/// effect, the display is refreshed from the tasks, and the help text is
/// hidden.
pub fn execute_command(app: &mut App, command: Option<Command>)
    requires
        command matches Some(Command::Create(_)) ==> old(app).next_id < u32::MAX,
    ensures
        executed(*old(app), *final(app), command),
{
    match command {
        Some(Command::Create(content)) => {
            execute_create_command(app, content.as_str());
        },
        Some(Command::Complete(query)) => execute_complete_command(app, query.as_str()),
        Some(Command::CompleteById(task_id)) => execute_complete_by_id_command(app, task_id),
        Some(Command::Delete(query)) => execute_delete_command(app, query.as_str()),
        Some(Command::MoveToTaskpad(query)) => execute_move_to_taskpad_command(app, query.as_str()),
        Some(Command::MoveToBackburner(query)) => execute_move_to_backburner_command(
            app,
            query.as_str(),
        ),
        Some(Command::MoveToShelved(query)) => execute_move_to_shelved_command(app, query.as_str()),
        Some(Command::Focus(query)) => execute_focus_command(app, query.as_str()),
        Some(Command::Edit(task_id, content)) => execute_edit_command(app, task_id, content),
        None => {
            app.log_activity(owned("Invalid command"));
        },
    }
    // Update display after any command
    app.display_container_state.update_display_order(app.tasks.as_slice());
    app.show_help = false;
}


/// The parent that `execute_add_subtask` resolves: the first task whose id
/// the text spells in decimal.
pub open spec fn subtask_parent(tasks: Seq<Task>, parent_ref: Seq<char>) -> Option<int> {
    match parse_usize(parent_ref) {
        Some(n) => if n <= u32::MAX {
            position_of_id(tasks, n as u32)
        } else {
            None
        },
        None => None,
    }
}

/// The tasks, id counter, log and save flag after adding a subtask with the
/// given content under the task at position `p`.
pub open spec fn subtask_added(old: App, new: App, p: int, content: Seq<char>) -> bool {
    let id = old.next_id;
    let parent = old.tasks@[p];
    &&& new.tasks@.len() == old.tasks@.len() + 1
    &&& new.tasks@.drop_last() == old.tasks@.update(p, Task { child_ids: new.tasks@[p].child_ids, ..parent })
    &&& new.tasks@[p].child_ids@ == parent.child_ids@.push(id)
    &&& new.tasks@.last().id == id
    &&& new.tasks@.last().content@ == content
    &&& new.tasks@.last().container == parent.container
    &&& new.tasks@.last().status == TaskStatus::Todo
    &&& new.tasks@.last().parent_id == Some(parent.id)
    &&& new.tasks@.last().child_ids@ == Seq::<u32>::empty()
    &&& new.next_id == id + 1
    &&& logged(old, new, "Subtask added"@)
    &&& new.pending_save
    &&& new.tasks_file@ == old.tasks_file@
    &&& new.show_help == old.show_help
    &&& new.app_mode == old.app_mode
}

/// Adds a new subtask with the given content under the task whose id the
/// text `parent_ref` spells; the subtask joins its parent's container.
/// Returns the id of the new subtask, or nothing when no such parent exists.
pub fn execute_add_subtask(app: &mut App, parent_ref: &str, content: &str) -> (r: Option<u32>)
    requires
        old(app).next_id < u32::MAX,
    ensures
        match subtask_parent(old(app).tasks@, parent_ref@) {
            None => r is None && *final(app) == *old(app),
            Some(p) => {
                &&& r == Some(old(app).next_id)
                &&& subtask_added(*old(app), *final(app), p, content@)
                &&& final(app).display_container_state@ == old(app).display_container_state@
            },
        },
{
    let rv = chars_of(parent_ref);
    proof {
        assert(rv@.subrange(0, rv@.len() as int) =~= rv@);
    }
    let n = match parse_usize_chars(&rv, 0, rv.len()) {
        Some(n) => n,
        None => return None,
    };
    if n > 4294967295 {
        return None;
    }
    let parent_id = n as u32;
    proof {
        lemma_position_of_id(app.tasks@, parent_id);
    }
    let p = match find_task_by_id(app.tasks.as_slice(), parent_id) {
        Some(p) => p,
        None => return None,
    };
    let id = app.next_id;
    let mut task = Task::new(id, owned(content));
    task.parent_id = Some(app.tasks[p].id);
    task.container = app.tasks[p].container;
    app.tasks[p].add_subtask(id);
    app.next_id = id + 1;
    app.tasks.push(task);
    proof {
        let parent = old(app).tasks@[p as int];
        assert(app.tasks@.drop_last() =~= old(app).tasks@.update(
            p as int,
            Task { child_ids: app.tasks@[p as int].child_ids, ..parent },
        ));
    }
    app.log_activity(owned("Subtask added"));
    app.pending_save = true;
    Some(id)
}

/// `mid` is `old` after the task `id` took `text` as its content.
pub open spec fn edited_to(old: App, mid: App, id: u32, text: Seq<char>) -> bool {
    exists|c: Command|
        #![trigger executed(old, mid, Some(c))]
        (c matches Command::Edit(eid, content) && eid == id && content@ == text) && executed(
            old,
            mid,
            Some(c),
        )
}

/// `mid` is `old` after the command parsed from `text` ran.
pub open spec fn ran_parsed(old: App, mid: App, text: Seq<char>) -> bool {
    exists|c: Command|
        #![trigger executed(old, mid, Some(c))]
        is_parsed_command(c, text) && executed(old, mid, Some(c))
}

/// `new` is `old` after the task `id` took `text` as its content and was
/// completed.
pub open spec fn edit_then_complete(old: App, new: App, id: u32, text: Seq<char>) -> bool {
    exists|mid: App|
        #![trigger edited_to(old, mid, id, text)]
        edited_to(old, mid, id, text) && executed(mid, new, Some(Command::CompleteById(id)))
}

/// What Enter does to a nonempty input in the terminal: with Ctrl held and
/// a focus, the input line completes the task the input names and a
/// focused task takes the input as its content and is completed; without
/// Ctrl, the input line runs the input as a command and a focused task takes
/// it as its content.  A focus past the list does nothing.
pub open spec fn enter_on_input(old: App, new: App, ctrl_held: bool) -> bool {
    let d = old.display_container_state@;
    let text = d.input;
    if text.len() == 0 {
        new == old
    } else if ctrl_held && d.focused_index is Some {
        if d.focused_index == Some(0usize) {
            exists|c: Command|
                #![trigger executed(old, new, Some(c))]
                (c matches Command::Complete(q) && q@ == text) && executed(old, new, Some(c))
        } else {
            match focused_task_id(d) {
                Some(id) => edit_then_complete(old, new, id, text),
                None => new == old,
            }
        }
    } else if d.focused_index is None || d.focused_index == Some(0usize) {
        ran_parsed(old, new, text)
    } else {
        match focused_task_id(d) {
            Some(id) => edited_to(old, new, id, text),
            None => new == old,
        }
    }
}

/// What a key event does: navigation keys move the focus, editing requests
/// change the input field, Enter runs the input as `enter_on_input` says,
/// and other keys do nothing.
pub open spec fn key_event_step(old: App, new: App, key: TermKey, ctrl_held: bool) -> bool {
    let d = old.display_container_state@;
    match key {
        TermKey::Up => only_display_changed(old, new) && new.display_container_state@ == navigated(
            d,
            NavigationKey::Up,
            old.tasks@,
        ),
        TermKey::Down => only_display_changed(old, new) && new.display_container_state@
            == navigated(d, NavigationKey::Down, old.tasks@),
        TermKey::Esc => only_display_changed(old, new) && new.display_container_state@
            == navigated(d, NavigationKey::Esc, old.tasks@),
        TermKey::Enter => enter_on_input(old, new, ctrl_held),
        TermKey::Edit(request) => {
            let r = input_after_request(d.input, d.cursor, request);
            &&& only_display_changed(old, new)
            &&& new.display_container_state@ == DisplayView { input: r.0, cursor: r.1, ..d }
        },
        TermKey::Other => new == old,
    }
}

/// Handle keyboard input events; `ctrl_held` tells whether Ctrl was held
/// with Enter.
pub fn handle_input_event(app: &mut App, key: TermKey, ctrl_held: bool)
    requires
        key is Enter ==> old(app).next_id < u32::MAX,
    ensures
        key_event_step(*old(app), *final(app), key, ctrl_held),
{
    match key {
        TermKey::Up => handle_navigation_keys(app, NavigationKey::Up),
        TermKey::Down => handle_navigation_keys(app, NavigationKey::Down),
        TermKey::Esc => handle_navigation_keys(app, NavigationKey::Esc),
        TermKey::Edit(request) => {
            app.display_container_state.get_input_mut().handle(request);
        },
        TermKey::Other => {},
        TermKey::Enter => {
            let input = owned(app.display_container_state.input_value());
            if input.as_str().is_empty() {
                return ;
            }
            let ghost text = input@;
            if ctrl_held && app.display_container_state.focused_index.is_some() {
                match app.display_container_state.focused_index {
                    Some(0) | None => {
                        let ghost c = Command::Complete(input);
                        execute_command(app, Some(Command::Complete(input)));
                        assert(executed(*old(app), *app, Some(c)));
                    },
                    Some(idx) => {
                        if idx - 1 < app.display_container_state.display_to_id.len() {
                            let task_id = app.display_container_state.display_to_id[idx - 1];
                            let ghost c = Command::Edit(task_id, input);
                            execute_command(app, Some(Command::Edit(task_id, input)));
                            let ghost mid = *app;
                            assert(executed(*old(app), mid, Some(c)));
                            assert(edited_to(*old(app), mid, task_id, text));
                            execute_command(app, Some(Command::CompleteById(task_id)));
                            assert(edit_then_complete(*old(app), *app, task_id, text));
                        }
                    },
                }
            } else {
                match app.display_container_state.focused_index {
                    Some(0) | None => {
                        let command = parse_command(input);
                        let ghost c = command;
                        execute_command(app, Some(command));
                        assert(is_parsed_command(c, text) && executed(*old(app), *app, Some(c)));
                    },
                    Some(idx) => {
                        if idx - 1 < app.display_container_state.display_to_id.len() {
                            let task_id = app.display_container_state.display_to_id[idx - 1];
                            let ghost c = Command::Edit(task_id, input);
                            execute_command(app, Some(Command::Edit(task_id, input)));
                            assert(executed(*old(app), *app, Some(c)));
                        }
                    },
                }
            }
        },
    }
}

/// Two commands parsed from the same input are the same command, up to the
/// text of their argument, so running either has the same effect.
pub proof fn lemma_parsed_commands_agree(old: App, new: App, c1: Command, c2: Command, s: Seq<char>)
    requires
        is_parsed_command(c1, s),
        is_parsed_command(c2, s),
        executed(old, new, Some(c1)),
    ensures
        executed(old, new, Some(c2)),
{
}

/// Enter on a nonempty input, without Ctrl and with the input line or
/// nothing focused, runs the command that `parse_command` makes of the
/// input, leaving the app exactly as `execute_command` leaves it.
pub proof fn lemma_enter_runs_parsed_command(old: App, new: App, c: Command)
    requires
        key_event_step(old, new, TermKey::Enter, false),
        old.display_container_state@.input.len() > 0,
        old.display_container_state@.focused_index is None
            || old.display_container_state@.focused_index == Some(0usize),
        is_parsed_command(c, old.display_container_state@.input),
    ensures
        executed(old, new, Some(c)),
{
    let text = old.display_container_state@.input;
    let c2 = choose|c2: Command|
        #![trigger executed(old, new, Some(c2))]
        is_parsed_command(c2, text) && executed(old, new, Some(c2));
    lemma_parsed_commands_agree(old, new, c2, c, text);
}

} // verus!
