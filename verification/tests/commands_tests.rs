use cyberorganism::commands::{
    complete_task, execute_command, execute_move_to_backburner_command, execute_move_to_shelved_command,
    execute_move_to_taskpad_command, find_task, focus_task, parse_command, Command, CommandResult, FocusResult,
};
use cyberorganism::taskstore::{Task, TaskContainer};
use cyberorganism::App;

fn setup_test_app() -> App {
    let mut app = App::default();
    app.tasks_file = "tasks.json".to_string();
    app.tasks.push(Task::new(1, "Buy groceries".to_string()));
    app.tasks.push(Task::new(2, "Call dentist".to_string()));
    app.tasks.push(Task::new(3, "Write report".to_string()));
    app.next_id = 4;
    app
}

#[test]
fn test_parse_command() {
    let cmd = parse_command("Buy milk".to_string());
    assert!(matches!(cmd, Command::Create(content) if content == "Buy milk"));

    let cmd = parse_command("complete Test task".to_string());
    assert!(matches!(cmd, Command::Complete(content) if content == "Test task"));

    let cmd = parse_command("delete Test task".to_string());
    assert!(matches!(cmd, Command::Delete(content) if content == "Test task"));

    let cmd = parse_command("move to taskpad Test task".to_string());
    assert!(matches!(cmd, Command::MoveToTaskpad(content) if content == "Test task"));

    let cmd = parse_command("move to backburner Test task".to_string());
    assert!(matches!(cmd, Command::MoveToBackburner(content) if content == "Test task"));

    let cmd = parse_command("move to shelved Test task".to_string());
    assert!(matches!(cmd, Command::MoveToShelved(content) if content == "Test task"));

    let cmd = parse_command("focus Test task".to_string());
    assert!(matches!(cmd, Command::Focus(content) if content == "Test task"));

    let cmd = parse_command("complete Test task  ".to_string());
    assert!(matches!(cmd, Command::Complete(content) if content == "Test task  "));
}

#[test]
fn test_find_task_by_partial_content() {
    let app = setup_test_app();
    let index = find_task(&app, "Buy groceries");
    assert!(index.is_some());
    assert_eq!(app.tasks[index.unwrap()].content, "Buy groceries");
    assert!(find_task(&app, "groceries").is_none());
}

#[test]
fn test_find_task_by_exact_content() {
    let app = setup_test_app();
    let index = find_task(&app, "Buy groceries");
    assert!(index.is_some());
    assert_eq!(app.tasks[index.unwrap()].content, "Buy groceries");
}

#[test]
fn test_find_task_by_display_index() {
    let mut app = setup_test_app();
    app.display_container_state.update_display_order(&app.tasks);
    let index = find_task(&app, "1");
    assert!(index.is_some());
}

#[test]
fn test_find_nonexistent_task() {
    let app = setup_test_app();
    assert!(find_task(&app, "nonexistent task").is_none());
}

#[test]
fn test_find_deleted_task() {
    let mut app = setup_test_app();
    let initial_count = app.tasks.len();
    let index = find_task(&app, "Buy groceries").unwrap();
    app.tasks.remove(index);
    assert_eq!(app.tasks.len(), initial_count - 1);
    assert!(find_task(&app, "Buy groceries").is_none());
}

#[test]
fn test_complete_task_success() {
    let mut app = setup_test_app();
    let result = complete_task(&mut app, "Buy groceries", None);
    assert!(matches!(result, CommandResult::TaskCompleted { content } if content == "Buy groceries"));
}

#[test]
fn test_complete_already_archived_task() {
    let mut app = setup_test_app();
    let _ = complete_task(&mut app, "Buy groceries", None);
    let result = complete_task(&mut app, "Buy groceries", None);
    assert!(matches!(result, CommandResult::TaskAlreadyArchived(content) if content == "Buy groceries"));
}

#[test]
fn test_complete_nonexistent_task() {
    let mut app = setup_test_app();
    let result = complete_task(&mut app, "nonexistent task", None);
    assert!(matches!(result, CommandResult::NoMatchingTask));
}

#[test]
fn test_delete_task_by_content() {
    let mut app = setup_test_app();
    let initial_count = app.tasks.len();
    execute_command(&mut app, Some(Command::Delete("Buy groceries".to_string())));
    assert_eq!(app.tasks.len(), initial_count - 1);
    assert!(app.tasks.iter().all(|t| t.content != "Buy groceries"));
}

#[test]
fn test_delete_task_by_index() {
    let mut app = setup_test_app();
    let initial_count = app.tasks.len();
    app.display_container_state.update_display_order(&app.tasks);
    execute_command(&mut app, Some(Command::Delete("1".to_string())));
    assert_eq!(app.tasks.len(), initial_count - 1);
}

#[test]
fn test_delete_nonexistent_task() {
    let mut app = setup_test_app();
    let initial_count = app.tasks.len();
    execute_command(&mut app, Some(Command::Delete("nonexistent task".to_string())));
    assert_eq!(app.tasks.len(), initial_count);
}

#[test]
fn test_delete_completed_task() {
    let mut app = setup_test_app();
    let initial_count = app.tasks.len();
    let _ = complete_task(&mut app, "Buy groceries", None);
    execute_command(&mut app, Some(Command::Delete("Buy groceries".to_string())));
    assert_eq!(app.tasks.len(), initial_count - 1);
    assert!(app.tasks.iter().all(|t| t.content != "Buy groceries"));
}

#[test]
fn test_move_to_taskpad_success() {
    let mut app = setup_test_app();
    let task = &mut app.tasks[0];
    task.container = TaskContainer::Backburner;
    let content = task.content.clone();
    execute_move_to_taskpad_command(&mut app, &content);
    assert_eq!(app.tasks[0].container, TaskContainer::Taskpad);
    assert_eq!(app.activity_log.latest_message().unwrap(), &format!("Moved task to taskpad: {}", content));
}

#[test]
fn test_move_to_taskpad_already_there() {
    let mut app = setup_test_app();
    let task = &app.tasks[0];
    let content = task.content.clone();
    execute_move_to_taskpad_command(&mut app, &content);
    assert_eq!(app.tasks[0].container, TaskContainer::Taskpad);
    assert_eq!(app.activity_log.latest_message().unwrap(), "Task already in taskpad");
}

#[test]
fn test_move_to_backburner_success() {
    let mut app = setup_test_app();
    let task = &app.tasks[0];
    let content = task.content.clone();
    execute_move_to_backburner_command(&mut app, &content);
    assert_eq!(app.tasks[0].container, TaskContainer::Backburner);
    assert_eq!(app.activity_log.latest_message().unwrap(), &format!("Moved task to backburner: {}", content));
}

#[test]
fn test_move_to_backburner_already_there() {
    let mut app = setup_test_app();
    let task = &mut app.tasks[0];
    task.container = TaskContainer::Backburner;
    let content = task.content.clone();
    execute_move_to_backburner_command(&mut app, &content);
    assert_eq!(app.tasks[0].container, TaskContainer::Backburner);
    assert_eq!(app.activity_log.latest_message().unwrap(), "Task already in backburner");
}

#[test]
fn test_move_to_shelved_success() {
    let mut app = setup_test_app();
    let task = &app.tasks[0];
    let content = task.content.clone();
    execute_move_to_shelved_command(&mut app, &content);
    assert_eq!(app.tasks[0].container, TaskContainer::Shelved);
    assert_eq!(app.activity_log.latest_message().unwrap(), &format!("Moved task to shelved: {}", content));
}

#[test]
fn test_move_to_shelved_already_there() {
    let mut app = setup_test_app();
    let task = &mut app.tasks[0];
    task.container = TaskContainer::Shelved;
    let content = task.content.clone();
    execute_move_to_shelved_command(&mut app, &content);
    assert_eq!(app.tasks[0].container, TaskContainer::Shelved);
    assert_eq!(app.activity_log.latest_message().unwrap(), "Task already in shelved");
}

#[test]
fn test_move_nonexistent_task() {
    let mut app = setup_test_app();
    execute_move_to_taskpad_command(&mut app, "Nonexistent task");
    assert_eq!(app.activity_log.latest_message().unwrap(), "No matching task found");
    execute_move_to_backburner_command(&mut app, "Nonexistent task");
    assert_eq!(app.activity_log.latest_message().unwrap(), "No matching task found");
    execute_move_to_shelved_command(&mut app, "Nonexistent task");
    assert_eq!(app.activity_log.latest_message().unwrap(), "No matching task found");
}

#[test]
fn test_focus_task_by_content() {
    let mut app = setup_test_app();
    app.display_container_state.update_display_order(&app.tasks);
    let result = focus_task(&mut app, "Buy groceries");
    assert!(matches!(result, FocusResult::Focused { content } if content == "Buy groceries"));
}

#[test]
fn test_focus_task_by_index_updates_state() {
    let mut app = setup_test_app();
    app.display_container_state.update_display_order(&app.tasks);
    let result = focus_task(&mut app, "1");
    assert!(matches!(result, FocusResult::Focused { .. }));
    assert_eq!(app.display_container_state.focused_index, Some(1));
    assert_eq!(app.display_container_state.input_value(), "Buy groceries");
}

#[test]
fn test_focus_task_updates_input() {
    let mut app = setup_test_app();
    app.display_container_state.update_display_order(&app.tasks);
    app.display_container_state.set_input("previous input");
    let result = focus_task(&mut app, "1");
    assert!(matches!(result, FocusResult::Focused { .. }));
    assert_eq!(app.display_container_state.input_value(), "Buy groceries");
}

#[test]
fn test_focus_nonexistent_task() {
    let mut app = setup_test_app();
    let result = focus_task(&mut app, "nonexistent task");
    assert!(matches!(result, FocusResult::NoMatchingTask));
}
