use cyberorganism::taskstore::operations;
use cyberorganism::taskstore::{find_task_by_content, find_task_by_id, Task, TaskBuilder, TaskContainer, TaskStatus};

fn setup_test_tasks() -> Vec<Task> {
    vec![
        TaskBuilder::new(1).content("Buy groceries").build(),
        TaskBuilder::new(2).content("Call dentist").build(),
        TaskBuilder::new(3).content("Write report").build(),
    ]
}

#[test]
fn test_task_new() {
    let task = Task::new(1, "Test task".to_string());
    assert_eq!(task.id, 1);
    assert_eq!(task.content, "Test task");
    assert!(matches!(task.container, TaskContainer::Taskpad));
    assert!(matches!(task.status, TaskStatus::Todo));
    assert!(task.parent_id.is_none());
    assert!(task.child_ids.is_empty());
}

#[test]
fn test_task_complete() {
    let mut task = Task::new(1, "Test task".to_string());
    task.complete();
    assert!(matches!(task.status, TaskStatus::Done));
    assert!(matches!(task.container, TaskContainer::Archived));
}

#[test]
fn test_task_container_methods() {
    let task = Task::new(1, "Test task".to_string());
    assert!(task.is_in_taskpad());
    assert_eq!(task.container(), &TaskContainer::Taskpad);
}

#[test]
fn test_task_container_display_names() {
    assert_eq!(TaskContainer::Taskpad.display_name(), "taskpad");
    assert_eq!(TaskContainer::Backburner.display_name(), "backburner");
    assert_eq!(TaskContainer::Shelved.display_name(), "shelved");
    assert_eq!(TaskContainer::Archived.display_name(), "archived");
}

#[test]
fn test_find_task_by_id() {
    let tasks = setup_test_tasks();
    assert_eq!(find_task_by_id(&tasks, 1), Some(0));
    assert_eq!(find_task_by_id(&tasks, 2), Some(1));
    assert_eq!(find_task_by_id(&tasks, 99), None);
}

#[test]
fn test_find_task_by_id_with_multiple_tasks() {
    let mut tasks = vec![];
    operations::add_task(&mut tasks, TaskBuilder::new(4).content("Important meeting").build());
    let archived_task = TaskBuilder::new(5)
        .content("Archived task")
        .container(TaskContainer::Archived)
        .build();
    operations::add_task(&mut tasks, archived_task);

    assert_eq!(find_task_by_id(&tasks, 4), Some(0));
    assert_eq!(find_task_by_id(&tasks, 5), Some(1));
    assert_eq!(find_task_by_id(&tasks, 6), None);
}

#[test]
fn test_find_task_by_content_case_insensitive() {
    let tasks = setup_test_tasks();
    assert!(find_task_by_content(&tasks, "BUY GROCERIES", TaskContainer::Taskpad).is_some());
    assert!(find_task_by_content(&tasks, "CALL DENTIST", TaskContainer::Taskpad).is_some());
}

#[test]
fn test_find_task_by_content_empty_query() {
    let tasks = setup_test_tasks();
    assert!(find_task_by_content(&tasks, "", TaskContainer::Taskpad).is_none());
}

#[test]
fn test_find_task_by_content_prioritizes_active_container() {
    let mut tasks = setup_test_tasks();
    tasks.push(TaskBuilder::new(4).content("Important meeting").build());
    let mut archived_task = TaskBuilder::new(5).content("Important meeting").build();
    archived_task.complete();
    tasks.push(archived_task);

    let found_idx = find_task_by_content(&tasks, "Important meeting", TaskContainer::Taskpad).unwrap();
    assert_eq!(tasks[found_idx].id, 4);
    assert!(tasks[found_idx].is_in_taskpad());
}

#[test]
fn task_builder_default_content_names_the_id() {
    let task = TaskBuilder::new(7).build();
    assert_eq!(task.content, "Task 7");
    assert_eq!(task.container, TaskContainer::Taskpad);
    assert!(matches!(task.status, TaskStatus::Todo));
}

#[test]
fn task_update_content_and_add_subtask() {
    let mut task = Task::new(1, "Old".to_string());
    task.update_content("New".to_string());
    task.add_subtask(9);
    assert_eq!(task.content, "New");
    assert_eq!(task.child_ids, vec![9]);
}

#[test]
fn operations_remove_and_update_task() {
    let mut tasks = setup_test_tasks();
    operations::remove_task(&mut tasks, 1);
    assert_eq!(tasks.len(), 2);
    assert_eq!(tasks[1].content, "Write report");
    operations::update_task(&mut tasks, 0, |mut t: Task| {
        t.status = TaskStatus::Done;
        t
    });
    assert!(matches!(tasks[0].status, TaskStatus::Done));
}

#[test]
fn operations_remove_child_from_parent() {
    let mut tasks = vec![
        TaskBuilder::new(1).children(vec![2, 3, 2]).build(),
        TaskBuilder::new(2).parent(1).build(),
    ];
    operations::remove_child_from_parent(&mut tasks, 0, 2);
    assert_eq!(tasks[0].child_ids, vec![3, 2]);
}

#[test]
fn find_nearest_sibling_prefers_previous() {
    let tasks = vec![
        TaskBuilder::new(1).children(vec![2, 3, 4]).build(),
        TaskBuilder::new(2).parent(1).build(),
        TaskBuilder::new(3).parent(1).build(),
        TaskBuilder::new(4).parent(1).build(),
    ];
    assert_eq!(operations::find_nearest_sibling(&tasks, 3), Some(2));
    assert_eq!(operations::find_nearest_sibling(&tasks, 2), Some(3));
    assert_eq!(operations::find_nearest_sibling(&tasks, 1), None);
}

#[test]
fn content_lookup_forgives_left_out_letters_only() {
    let tasks = vec![Task::new(1, "Buy groceries".to_string())];
    assert_eq!(find_task_by_content(&tasks, "Buy grocerjes", TaskContainer::Taskpad), None);
    assert_eq!(find_task_by_content(&tasks, "buy groceries", TaskContainer::Taskpad), Some(0));
}
