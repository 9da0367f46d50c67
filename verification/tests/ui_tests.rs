use cyberorganism::display_container::{ActivityLog, DisplayContainerState};
use cyberorganism::task_index::TaskIndex;
use cyberorganism::taskstore::{Task, TaskBuilder, TaskContainer};
use cyberorganism::tui::rendering::{
    calculate_cursor_position, calculate_input_dimensions, create_layout_constraints, format_task_line,
};

#[test]
fn ui_test_taskpad_display_order() {
    let mut state = DisplayContainerState::new();
    let tasks = vec![
        TaskBuilder::new(1).children(vec![3]).build(),
        TaskBuilder::new(2).container(TaskContainer::Archived).build(),
        TaskBuilder::new(3).content("Task 1.1").parent(1).build(),
    ];

    state.fold_task(1);
    state.update_display_order(&tasks);
    assert_eq!(state.len(), 1);
    assert_eq!(state.get_task_id_by_path("1", &tasks), Some(1));
    assert_eq!(state.get_task_id_by_path("1.1", &tasks), None);

    state.toggle_task_expansion(1, &tasks);
    state.update_display_order(&tasks);
    assert_eq!(state.len(), 2);
    assert_eq!(state.get_task_id_by_path("1", &tasks), Some(1));
    assert_eq!(state.get_task_id_by_path("1.1", &tasks), Some(3));

    state.active_container = TaskContainer::Archived;
    state.update_display_order(&tasks);
    assert_eq!(state.len(), 1);
    assert_eq!(state.get_task_id_by_path("1", &tasks), Some(2));
}

#[test]
fn ui_test_get_task_id_by_path() {
    let tasks = vec![
        TaskBuilder::new(7).children(vec![9]).build(),
        TaskBuilder::new(6).build(),
        TaskBuilder::new(9).content("Task 1.1").parent(7).build(),
    ];

    let mut display = DisplayContainerState::default();
    display.active_container = TaskContainer::Taskpad;

    assert_eq!(display.get_task_id_by_path("1", &tasks), Some(7));
    assert_eq!(display.get_task_id_by_path("2", &tasks), Some(6));
    assert_eq!(display.get_task_id_by_path("1.1", &tasks), Some(9));

    assert_eq!(display.get_task_id_by_path("3", &tasks), None);
    assert_eq!(display.get_task_id_by_path("1.2", &tasks), None);
    assert_eq!(display.get_task_id_by_path("2.1", &tasks), None);
}

#[test]
fn ui_test_taskpad_empty() {
    let mut state = DisplayContainerState::new();
    let tasks: Vec<Task> = Vec::new();

    state.update_display_order(&tasks);
    assert!(state.is_empty());
    assert_eq!(state.get_task_id_by_path("1", &tasks), None);
}

#[test]
fn ui_test_activity_log() {
    let mut log = ActivityLog::new();
    assert_eq!(log.latest_message(), None);

    log.add_message("First message".to_string());
    assert_eq!(log.latest_message(), Some("First message"));

    for i in 0..20 {
        log.add_message(format!("Message {}", i));
    }
    assert_eq!(log.latest_message(), Some("Message 19"));
}

#[test]
fn ui_test_calculate_input_dimensions() {
    let (lines, height) = calculate_input_dimensions("", 0, 10);
    assert_eq!(lines.len(), 1, "Empty input should have one line");
    assert_eq!(height, 3, "Empty input should have height of 3 (1 line + 2 borders)");

    let (lines, height) = calculate_input_dimensions("hello", 5, 10);
    assert_eq!(lines.len(), 1, "Short input should fit in one line");
    assert_eq!(height, 3, "Single line should have height of 3");

    let (lines, height) = calculate_input_dimensions("hello world", 11, 5);
    assert_eq!(lines.len(), 3, "Should split into three lines");
    assert_eq!(height, 5, "Three lines plus borders should be height 5");

    let (lines, height) = calculate_input_dimensions("hi", 10, 5);
    assert_eq!(lines.len(), 3, "Should have enough lines for cursor");
    assert_eq!(height, 5, "Should have height for cursor position");
}

#[test]
fn ui_test_create_layout_constraints() {
    let constraints = create_layout_constraints(3, false);
    assert_eq!(constraints.len(), 3, "Should have 3 constraints without help");

    let constraints = create_layout_constraints(3, true);
    assert_eq!(constraints.len(), 4, "Should have 4 constraints with help");
}

#[test]
fn ui_test_format_task_line() {
    let display_state = DisplayContainerState::new();

    let task = TaskBuilder::new(1).content("Test task").build();
    let line = format_task_line(&TaskIndex::from_path(vec![1]), &task, &display_state, 20, false);
    let full_content: String = line.iter().map(|span| &span.text[..]).collect();
    assert!(full_content.starts_with("1. Test task"));

    let long_task = TaskBuilder::new(2).content("This is a very long task that should be truncated").build();
    let line = format_task_line(&TaskIndex::from_path(vec![1]), &long_task, &display_state, 20, false);
    let full_content: String = line.iter().map(|span| &span.text[..]).collect();
    assert!(full_content.len() <= 20, "Line should be truncated to width");
    assert!(full_content.contains("..."), "Truncated line should end with ...");

    let numbered_task = TaskBuilder::new(3).content("Test task").build();
    let line = format_task_line(&TaskIndex::from_path(vec![10]), &numbered_task, &display_state, 20, false);
    let full_content: String = line.iter().map(|span| &span.text[..]).collect();
    assert!(full_content.starts_with("10. "));
}

#[test]
fn ui_test_calculate_cursor_position() {
    let (x, y) = calculate_cursor_position(0, 10);
    assert_eq!((x, y), (0, 0));

    let (x, y) = calculate_cursor_position(5, 10);
    assert_eq!((x, y), (5, 0));

    let (x, y) = calculate_cursor_position(12, 10);
    assert_eq!((x, y), (2, 1));

    let (x, y) = calculate_cursor_position(10, 10);
    assert_eq!((x, y), (0, 1));
}

fn three_tasks_ui() -> Vec<Task> {
    vec![
        TaskBuilder::new(1).content("Task 1").build(),
        TaskBuilder::new(2).content("Task 2").build(),
        TaskBuilder::new(3).content("Task 3").container(TaskContainer::Archived).build(),
    ]
}

#[test]
fn ui_test_input_matches_focused_task() {
    let mut state = DisplayContainerState::new();
    let tasks = three_tasks_ui();

    state.update_display_order(&tasks);
    state.focused_index = Some(0);
    state.update_input_for_focus(&tasks);
    assert_eq!(state.input_value(), "");

    state.focused_index = Some(1);
    state.update_input_for_focus(&tasks);
    assert_eq!(state.input_value(), "Task 1");

    state.focused_index = Some(2);
    state.update_input_for_focus(&tasks);
    assert_eq!(state.input_value(), "Task 2");
}

#[test]
fn ui_test_input_updates_when_display_changes() {
    let mut state = DisplayContainerState::new();
    let mut tasks = three_tasks_ui();

    state.update_display_order(&tasks);
    state.focused_index = Some(1);
    state.update_input_for_focus(&tasks);
    assert_eq!(state.input_value(), "Task 1");

    tasks[0].container = TaskContainer::Backburner;
    state.update_display_order(&tasks);
    state.update_input_for_focus(&tasks);
    assert_eq!(state.input_value(), "Task 2");
}

#[test]
fn ui_test_input_resets_when_focus_invalid() {
    let mut state = DisplayContainerState::new();
    let mut tasks = three_tasks_ui();

    state.update_display_order(&tasks);
    state.focused_index = Some(1);
    state.update_input_for_focus(&tasks);
    assert_eq!(state.input_value(), "Task 1");

    for task in tasks.iter_mut() {
        task.container = TaskContainer::Backburner;
    }
    state.update_display_order(&tasks);
    state.update_input_for_focus(&tasks);
    assert_eq!(state.input_value(), "");
}
