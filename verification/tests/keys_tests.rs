use cyberorganism::commands::{execute_add_subtask, handle_input_event as command_input_event, AppMode};
use cyberorganism::display_container::{EditRequest, InputBuffer};
use cyberorganism::gui::keyhandler::{FrameKeys, KeyHandler};
use cyberorganism::keyhandler::{
    handle_input_event, handle_key_combination, handle_navigation_keys, KeyCombination, KeyCombinationTracker,
    NavigationKey, PressedKeys, TermKey,
};
use cyberorganism::taskstore::{Task, TaskContainer, TaskStatus};
use cyberorganism::App;

fn app_with_tasks() -> App {
    let mut app = App::new();
    app.tasks.push(Task::new(1, "Buy groceries".to_string()));
    app.tasks.push(Task::new(2, "Call dentist".to_string()));
    app.next_id = 3;
    app.display_container_state.update_display_order(&app.tasks);
    app
}

fn keys(ctrl: bool, shift: bool, up: bool, down: bool, enter: bool) -> PressedKeys {
    PressedKeys { ctrl, shift, up, down, enter }
}

#[test]
fn tracker_debounces_combinations() {
    let mut tracker = KeyCombinationTracker::new(150);
    assert_eq!(tracker.check_combinations(100, keys(true, false, true, false, false)), KeyCombination::NoCombination);
    assert_eq!(tracker.check_combinations(200, keys(true, false, true, false, false)), KeyCombination::CtrlUp);
    assert_eq!(tracker.check_combinations(300, keys(true, false, false, true, false)), KeyCombination::NoCombination);
    assert_eq!(tracker.check_combinations(350, keys(true, false, false, true, false)), KeyCombination::CtrlDown);
    assert_eq!(tracker.check_combinations(600, keys(false, true, false, false, true)), KeyCombination::ShiftEnter);
    assert!(tracker.shift_pressed);
    assert_eq!(tracker.check_combinations(900, keys(true, true, false, false, true)), KeyCombination::CtrlEnter);
    assert_eq!(tracker.check_combinations(1200, keys(false, false, false, false, false)), KeyCombination::NoCombination);
    assert!(!tracker.shift_pressed);
}

#[test]
fn navigation_wraps_around() {
    let mut app = app_with_tasks();
    assert_eq!(app.display_container_state.focused_index, Some(0));
    handle_navigation_keys(&mut app, NavigationKey::Up);
    assert_eq!(app.display_container_state.focused_index, Some(2));
    assert_eq!(app.display_container_state.input_value(), "Call dentist");
    handle_navigation_keys(&mut app, NavigationKey::Down);
    assert_eq!(app.display_container_state.focused_index, Some(0));
    assert_eq!(app.display_container_state.input_value(), "");
    handle_navigation_keys(&mut app, NavigationKey::Esc);
    assert_eq!(app.display_container_state.focused_index, None);
}

#[test]
fn enter_runs_typed_command() {
    let mut app = app_with_tasks();
    let tracker = KeyCombinationTracker::new(150);
    for c in "Write report".chars() {
        handle_input_event(&mut app, TermKey::Edit(EditRequest::InsertChar(c)), &tracker);
    }
    assert_eq!(app.display_container_state.input_value(), "Write report");
    handle_input_event(&mut app, TermKey::Enter, &tracker);
    assert_eq!(app.tasks.len(), 3);
    assert_eq!(app.tasks[2].content, "Write report");
    assert_eq!(app.activity_log.latest_message(), Some("Task added"));
    assert!(app.pending_save);
    assert!(!app.show_help);
}

#[test]
fn enter_with_shift_is_left_to_the_tracker() {
    let mut app = app_with_tasks();
    let mut tracker = KeyCombinationTracker::new(0);
    tracker.check_combinations(10, keys(false, true, false, false, true));
    app.display_container_state.set_input("Something");
    handle_input_event(&mut app, TermKey::Enter, &tracker);
    assert_eq!(app.tasks.len(), 2);
}

#[test]
fn ctrl_enter_completes_focused_task() {
    let mut app = app_with_tasks();
    app.display_container_state.focused_index = Some(1);
    app.display_container_state.update_input_for_focus(&app.tasks);
    assert!(handle_key_combination(&mut app, KeyCombination::CtrlEnter));
    assert!(matches!(app.tasks[0].status, TaskStatus::Done));
    assert_eq!(app.tasks[0].container, TaskContainer::Archived);
    assert!(!handle_key_combination(&mut app, KeyCombination::NoCombination));
}

#[test]
fn shift_enter_adds_focused_subtask() {
    let mut app = app_with_tasks();
    app.display_container_state.focused_index = Some(1);
    assert!(handle_key_combination(&mut app, KeyCombination::ShiftEnter));
    assert_eq!(app.tasks.len(), 3);
    assert_eq!(app.tasks[2].parent_id, Some(1));
    assert_eq!(app.tasks[0].child_ids, vec![3]);
    assert_eq!(app.display_container_state.display_to_id, vec![1, 3, 2]);
    assert_eq!(app.display_container_state.focused_index, Some(2));
    assert_eq!(app.display_container_state.original_focus, Some(1));
}

#[test]
fn ctrl_arrows_fold_focused_task() {
    let mut app = app_with_tasks();
    execute_add_subtask(&mut app, "1", "Milk");
    app.display_container_state.update_display_order(&app.tasks);
    assert_eq!(app.display_container_state.display_to_id, vec![1, 3, 2]);
    app.display_container_state.focused_index = Some(1);
    assert!(handle_key_combination(&mut app, KeyCombination::CtrlUp));
    assert_eq!(app.display_container_state.display_to_id, vec![1, 2]);
    assert!(handle_key_combination(&mut app, KeyCombination::CtrlDown));
    assert_eq!(app.display_container_state.display_to_id, vec![1, 3, 2]);
}

#[test]
fn add_subtask_needs_an_existing_parent() {
    let mut app = app_with_tasks();
    assert_eq!(execute_add_subtask(&mut app, "9", "x"), None);
    assert_eq!(execute_add_subtask(&mut app, "two", "x"), None);
    assert_eq!(execute_add_subtask(&mut app, "2", "Book"), Some(3));
    assert_eq!(app.tasks[2].container, TaskContainer::Taskpad);
    assert_eq!(app.activity_log.latest_message(), Some("Subtask added"));
}

#[test]
fn command_input_event_with_ctrl_completes() {
    let mut app = app_with_tasks();
    app.display_container_state.set_input("Call dentist");
    command_input_event(&mut app, TermKey::Enter, true);
    assert!(matches!(app.tasks[1].status, TaskStatus::Done));

    let mut app = app_with_tasks();
    app.display_container_state.focused_index = Some(2);
    app.display_container_state.set_input("Call the dentist");
    command_input_event(&mut app, TermKey::Enter, false);
    assert_eq!(app.tasks[1].content, "Call the dentist");
    assert!(matches!(app.tasks[1].status, TaskStatus::Todo));
}

#[test]
fn input_editing_requests() {
    let mut input = InputBuffer::new("hello world".to_string());
    input.handle(EditRequest::GoToPrevWord);
    assert_eq!(input.cursor(), 6);
    input.handle(EditRequest::DeletePrevChar);
    assert_eq!(input.value(), "helloworld");
    input.handle(EditRequest::InsertChar('_'));
    assert_eq!(input.value(), "hello_world");
    input.handle(EditRequest::GoToStart);
    assert_eq!(input.cursor(), 0);
    input.handle(EditRequest::DeleteNextChar);
    assert_eq!(input.value(), "ello_world");
    input.handle(EditRequest::GoToEnd);
    assert_eq!(input.cursor(), 10);
    input.handle(EditRequest::DeleteLine);
    assert_eq!(input.value(), "");
    assert_eq!(input.cursor(), 0);
}

#[test]
fn gui_enter_creates_then_edits() {
    let mut app = app_with_tasks();
    let mut handler = KeyHandler::new();
    let mut text = "Plan trip".to_string();
    let enter = FrameKeys { enter: true, up: false, down: false };
    assert!(handler.handle_input(&mut app, enter, &mut text));
    assert_eq!(app.tasks.len(), 3);
    assert_eq!(text, "");
    assert!(app.display_container_state.request_focus_next_frame);

    let down = FrameKeys { enter: false, up: false, down: true };
    assert!(handler.handle_input(&mut app, down, &mut text));
    assert_eq!(app.display_container_state.focused_index, Some(1));
    assert_eq!(text, "Buy groceries");

    text = "Buy bread".to_string();
    handler.handle_input(&mut app, enter, &mut text);
    assert_eq!(app.tasks[0].content, "Buy bread");
    assert_eq!(text, "Buy bread");
}

#[test]
fn gui_shift_enter_adds_subtask_and_logs() {
    let mut app = app_with_tasks();
    let mut handler = KeyHandler::new();
    handler.update_modifiers(true, false);
    let enter = FrameKeys { enter: true, up: false, down: false };

    // Under an unfolded task the subtask is not listed yet when the focus is
    // looked for, so the focus stays
    app.display_container_state.focused_index = Some(1);
    let mut text = "Milk".to_string();
    assert!(handler.handle_input(&mut app, enter, &mut text));
    assert_eq!(app.tasks[2].parent_id, Some(1));
    assert_eq!(text, "");
    assert_eq!(app.display_container_state.focused_index, Some(1));
    assert_eq!(app.activity_log.latest_message(), Some("Subtask added"));
    assert_eq!(app.display_container_state.display_to_id, vec![1, 3, 2]);

    // Under a folded task, unfolding lists it and the focus goes one past it
    let mut app = app_with_tasks();
    app.display_container_state.fold_task(1);
    app.display_container_state.focused_index = Some(1);
    let mut text = "Milk".to_string();
    assert!(handler.handle_input(&mut app, enter, &mut text));
    assert_eq!(app.display_container_state.focused_index, Some(3));
    assert_eq!(app.activity_log.latest_message(), Some("Created subtask 3 under: Buy groceries"));
}

#[test]
fn gui_ctrl_arrow_toggles_and_ctrl_enter_completes() {
    let mut app = app_with_tasks();
    execute_add_subtask(&mut app, "1", "Milk");
    app.display_container_state.update_display_order(&app.tasks);
    let mut handler = KeyHandler::new();
    handler.update_modifiers(false, true);
    app.display_container_state.focused_index = Some(1);
    let mut text = String::new();
    let up = FrameKeys { enter: false, up: true, down: false };
    assert!(handler.handle_input(&mut app, up, &mut text));
    assert_eq!(app.display_container_state.display_to_id, vec![1, 2]);
    assert_eq!(app.activity_log.latest_message(), Some("Toggled expansion of task 2"));

    let enter = FrameKeys { enter: true, up: false, down: false };
    let mut text = "Buy everything".to_string();
    assert!(handler.handle_input(&mut app, enter, &mut text));
    assert_eq!(app.tasks[0].content, "Buy everything");
    assert!(matches!(app.tasks[0].status, TaskStatus::Done));
    assert_eq!(text, "");
    assert_eq!(app.app_mode, AppMode::Pkm);
}

#[test]
fn enter_on_input_line_runs_the_parsed_command() {
    let mut app = app_with_tasks();
    app.display_container_state.set_input("delete Buy groceries");
    command_input_event(&mut app, TermKey::Enter, false);
    assert_eq!(app.tasks.len(), 1);
    assert_eq!(app.tasks[0].content, "Call dentist");
    assert_eq!(app.activity_log.latest_message(), Some("Deleted task: Buy groceries"));
    assert!(!app.show_help);
}

#[test]
fn gui_enter_on_input_line_runs_the_parsed_command() {
    let mut app = app_with_tasks();
    let mut handler = KeyHandler::new();
    let mut text = "delete Buy groceries".to_string();
    let enter = FrameKeys { enter: true, up: false, down: false };
    assert!(handler.handle_input(&mut app, enter, &mut text));
    assert_eq!(app.tasks.len(), 1);
    assert_eq!(app.tasks[0].content, "Call dentist");
    assert_eq!(app.activity_log.latest_message(), Some("Deleted task: Buy groceries"));
    assert_eq!(text, "");
    assert!(app.display_container_state.request_focus_next_frame);
}

#[test]
fn arrow_keys_work_with_a_full_id_counter() {
    let mut app = app_with_tasks();
    app.next_id = u32::MAX;
    command_input_event(&mut app, TermKey::Down, false);
    assert_eq!(app.display_container_state.focused_index, Some(1));

    let mut app = app_with_tasks();
    app.next_id = u32::MAX;
    let mut handler = KeyHandler::new();
    let mut text = String::new();
    let down = FrameKeys { enter: false, up: false, down: true };
    assert!(handler.handle_input(&mut app, down, &mut text));
    assert_eq!(app.display_container_state.focused_index, Some(1));
    assert_eq!(text, "Buy groceries");
}
