//! Task management core for cyberorganism: tasks and their containers,
//! the display state of the outliner, command parsing and execution, and
//! the decisions behind keyboard handling.

pub mod text;
pub mod taskstore;
pub mod task_index;
pub mod display_container;
pub mod commands;
pub mod keyhandler;
pub mod gui;
pub mod tui;
pub mod listing;
pub mod genius_platform;
pub mod config;
pub mod terminal;

use vstd::prelude::*;
use crate::taskstore::{Task, same_task};
use crate::display_container::{DisplayContainerState, ActivityLog, refresh_display, initial_display};
use crate::commands::AppMode;
use crate::text::owned;

verus! {

/// Represents the current state of the application
pub struct App {
    /// List of all tasks
    pub tasks: Vec<Task>,
    /// Next available task ID
    pub next_id: u32,
    /// Path to the tasks file
    pub tasks_file: String,
    /// State of the taskpad display
    pub display_container_state: DisplayContainerState,
    /// Log of recent activity
    pub activity_log: ActivityLog,
    /// Whether to show help text
    pub show_help: bool,
    /// Whether keys drive the task outliner or the Genius feed
    pub app_mode: AppMode,
    /// The task list changed in a way that should be written to the tasks
    /// file; whoever owns the file clears it after writing
    pub pending_save: bool,
}

/// The tasks file, the help flag, the mode and the save flag are as before.
pub open spec fn settings_kept(old: App, new: App) -> bool {
    &&& new.tasks_file@ == old.tasks_file@
    &&& new.show_help == old.show_help
    &&& new.app_mode == old.app_mode
    &&& new.pending_save == old.pending_save
}

impl Default for App {
    fn default() -> (app: Self)
        ensures
            app.tasks@ == Seq::<Task>::empty(),
            app.next_id == 1,
            app.tasks_file@ == "tasks.json"@,
            app.display_container_state@ == initial_display(),
            app.activity_log@ == Seq::<Seq<char>>::empty(),
            app.show_help,
            app.app_mode == AppMode::Pkm,
            !app.pending_save,
    {
        Self::new()
    }
}

impl App {
    /// Creates a new application state
    pub fn new() -> (app: Self)
        ensures
            app.tasks@ == Seq::<Task>::empty(),
            app.next_id == 1,
            app.tasks_file@ == "tasks.json"@,
            app.display_container_state@ == initial_display(),
            app.activity_log@ == Seq::<Seq<char>>::empty(),
            app.show_help,
            app.app_mode == AppMode::Pkm,
            !app.pending_save,
    {
        App {
            tasks: Vec::new(),
            next_id: 1,
            tasks_file: owned("tasks.json"),
            display_container_state: DisplayContainerState::new(),
            activity_log: ActivityLog::new(),
            show_help: true,
            app_mode: AppMode::Pkm,
            pending_save: false,
        }
    }

    /// Logs an activity message
    pub fn log_activity(&mut self, message: String)
        ensures
            final(self).activity_log@ == seq![message@] + old(self).activity_log@,
            final(self).tasks@ == old(self).tasks@,
            final(self).next_id == old(self).next_id,
            final(self).tasks_file == old(self).tasks_file,
            final(self).display_container_state@ == old(self).display_container_state@,
            final(self).show_help == old(self).show_help,
            final(self).app_mode == old(self).app_mode,
            final(self).pending_save == old(self).pending_save,
    {
        self.activity_log.add_message(message);
    }

    /// Remove a task from the task list and update display order
    pub fn remove_task(&mut self, index: usize)
        requires
            index < old(self).tasks@.len(),
        ensures
            final(self).tasks@ == old(self).tasks@.remove(index as int),
            final(self).display_container_state@ == refresh_display(
                old(self).display_container_state@,
                final(self).tasks@,
            ),
            final(self).next_id == old(self).next_id,
            final(self).activity_log@ == old(self).activity_log@,
            settings_kept(*old(self), *final(self)),
    {
        taskstore::operations::remove_task(&mut self.tasks, index);
        self.display_container_state.update_display_order(self.tasks.as_slice());
    }

    /// Add a task to the task list and update display order
    pub fn add_task(&mut self, task: Task)
        ensures
            final(self).tasks@ == old(self).tasks@.push(task),
            final(self).display_container_state@ == refresh_display(
                old(self).display_container_state@,
                final(self).tasks@,
            ),
            final(self).next_id == old(self).next_id,
            final(self).activity_log@ == old(self).activity_log@,
            settings_kept(*old(self), *final(self)),
    {
        taskstore::operations::add_task(&mut self.tasks, task);
        self.display_container_state.update_display_order(self.tasks.as_slice());
    }

    /// Update a task in the task list and update display order
    pub fn update_task<F: FnOnce(Task) -> Task>(&mut self, index: usize, update_fn: F)
        requires
            index < old(self).tasks@.len(),
            update_fn.requires((old(self).tasks@[index as int],)),
        ensures
            final(self).tasks@.len() == old(self).tasks@.len(),
            update_fn.ensures((old(self).tasks@[index as int],), final(self).tasks@[index as int]),
            forall|j: int|
                0 <= j < old(self).tasks@.len() && j != index ==> final(self).tasks@[j] == old(
                    self,
                ).tasks@[j],
            final(self).display_container_state@ == refresh_display(
                old(self).display_container_state@,
                final(self).tasks@,
            ),
            final(self).next_id == old(self).next_id,
            final(self).activity_log@ == old(self).activity_log@,
            settings_kept(*old(self), *final(self)),
    {
        taskstore::operations::update_task(&mut self.tasks, index, update_fn);
        self.display_container_state.update_display_order(self.tasks.as_slice());
    }

    /// Remove a child from a parent task and update display order
    pub fn remove_child_from_parent(&mut self, parent_index: usize, child_id: u32)
        requires
            parent_index < old(self).tasks@.len(),
        ensures
            final(self).tasks@.len() == old(self).tasks@.len(),
            final(self).tasks@[parent_index as int].child_ids@
                == taskstore::operations::without_first(
                old(self).tasks@[parent_index as int].child_ids@,
                child_id,
            ),
            same_task(
                final(self).tasks@[parent_index as int],
                (Task {
                    child_ids: final(self).tasks@[parent_index as int].child_ids,
                    ..old(self).tasks@[parent_index as int]
                }),
            ),
            forall|j: int|
                0 <= j < old(self).tasks@.len() && j != parent_index ==> final(self).tasks@[j]
                    == old(self).tasks@[j],
            final(self).display_container_state@ == refresh_display(
                old(self).display_container_state@,
                final(self).tasks@,
            ),
            final(self).next_id == old(self).next_id,
            final(self).activity_log@ == old(self).activity_log@,
            settings_kept(*old(self), *final(self)),
    {
        taskstore::operations::remove_child_from_parent(&mut self.tasks, parent_index, child_id);
        self.display_container_state.update_display_order(self.tasks.as_slice());
    }
}

} // verus!
