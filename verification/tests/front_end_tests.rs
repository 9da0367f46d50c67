use cyberorganism::config::{default_genius_api_url, default_timeout_secs, fallback_config, GeniusConfig};
use cyberorganism::display_container::DisplayContainerState;
use cyberorganism::gui::task_list::{
    checkbox_completion, collect_task_data, container_heading, entry_clicked, format_task_text,
    handle_task_responses, help_text, input_hint, mode_label, should_highlight, take_focus_request, TaskResponse,
};
use cyberorganism::commands::AppMode;
use cyberorganism::listing::collect_rows;
use cyberorganism::task_index::TaskIndex;
use cyberorganism::taskstore::{TaskBuilder, TaskContainer, TaskStatus};
use cyberorganism::terminal::{initial_size, output_message, terminal_action, TerminalAction, TerminalMessage};
use cyberorganism::tui::rendering::{
    calculate_available_width, create_help_line, create_layout_constraints, format_task_line, LayoutConstraint,
    SpanStyle,
};
use cyberorganism::App;

fn nested_tasks() -> Vec<cyberorganism::taskstore::Task> {
    vec![
        TaskBuilder::new(1).content("Plan").children(vec![2, 9, 3]).build(),
        TaskBuilder::new(2).content("Book").parent(1).build(),
        TaskBuilder::new(3).content("Pack").parent(1).build(),
        TaskBuilder::new(4).content("Later").container(TaskContainer::Shelved).build(),
        TaskBuilder::new(5).content("Call").build(),
    ]
}

#[test]
fn listing_numbers_children_by_their_place() {
    let tasks = nested_tasks();
    let state = DisplayContainerState::new();
    let rows = collect_rows(&tasks, &state);
    let listed: Vec<(usize, String)> = rows.iter().map(|(p, ix)| (*p, ix.to_string())).collect();
    assert_eq!(
        listed,
        vec![(0, "1".to_string()), (1, "1.1".to_string()), (2, "1.3".to_string()), (4, "2".to_string())]
    );

    let data = collect_task_data(&tasks, &state);
    let ids: Vec<(u32, usize)> = data.iter().map(|(id, _, depth)| (*id, *depth)).collect();
    assert_eq!(ids, vec![(1, 0), (2, 1), (3, 1), (5, 0)]);
}

#[test]
fn folded_task_hides_its_children_in_listing() {
    let tasks = nested_tasks();
    let mut state = DisplayContainerState::new();
    state.fold_task(1);
    let rows = collect_rows(&tasks, &state);
    assert_eq!(rows.len(), 2);
}

#[test]
fn gui_task_text() {
    let tasks = nested_tasks();
    let mut state = DisplayContainerState::new();
    let index = TaskIndex::from_str("1").unwrap();
    assert_eq!(format_task_text(&tasks[0], &index, 0, &state), "1. Plan");
    state.fold_task(1);
    assert_eq!(format_task_text(&tasks[0], &index, 0, &state), "1. \u{25b6} Plan");
    let sub = TaskIndex::from_str("1.2").unwrap();
    assert_eq!(format_task_text(&tasks[1], &sub, 1, &state), "  1.2 Book");
}

#[test]
fn tui_task_line_marks_done_and_folded() {
    let mut task = TaskBuilder::new(1).content("Plan").children(vec![2]).build();
    task.status = TaskStatus::Done;
    let mut state = DisplayContainerState::new();
    state.fold_task(1);
    let line = format_task_line(&TaskIndex::from_str("2.1").unwrap(), &task, &state, 40, true);
    let texts: Vec<&str> = line.iter().map(|s| s.text.as_str()).collect();
    assert_eq!(texts, vec!["  2.1", " ", "\u{2713} ", "\u{25b6} ", "Plan"]);
    assert_eq!(line[0].style, SpanStyle::Reversed);
    assert_eq!(line[2].style, SpanStyle::ReversedAccent);
}

#[test]
fn tui_task_line_cuts_between_characters() {
    let task = TaskBuilder::new(1).content("ab\u{e9}cdefgh").build();
    let state = DisplayContainerState::new();
    let line = format_task_line(&TaskIndex::from_str("1").unwrap(), &task, &state, 10, false);
    assert_eq!(line.last().unwrap().text, "ab\u{e9}...");
}

#[test]
fn layout_and_width() {
    assert_eq!(calculate_available_width(0, 0, 80, 24), 78);
    assert_eq!(calculate_available_width(0, 0, 1, 24), 0);
    assert_eq!(
        create_layout_constraints(4, true),
        vec![LayoutConstraint::Min(1), LayoutConstraint::Length(1), LayoutConstraint::Length(1), LayoutConstraint::Length(4)]
    );
    let spans = create_help_line();
    let help: String = spans.iter().map(|s| s.text.as_str()).collect();
    assert_eq!(help, "Press esc or ctrl-c to exit cyberorganism");
}

#[test]
fn headings_and_labels() {
    assert_eq!(container_heading(TaskContainer::Taskpad), "Taskpad");
    assert_eq!(container_heading(TaskContainer::Archived), "Archived");
    assert_eq!(mode_label(AppMode::Feed), "Feed Mode");
    assert_eq!(input_hint(AppMode::Pkm), "Enter task or command...");
    assert!(help_text().starts_with("Help: Enter = execute"));
    assert!(should_highlight(true, AppMode::Pkm));
    assert!(!should_highlight(true, AppMode::Feed));
    assert_eq!(checkbox_completion(4, true, true), Some(4));
    assert_eq!(checkbox_completion(4, true, false), None);
}

#[test]
fn clicks_on_the_task_list() {
    let mut app = App::new();
    app.tasks = nested_tasks();
    app.next_id = 6;
    app.display_container_state.update_display_order(&app.tasks);
    let mut text = "draft".to_string();
    let responses = vec![
        TaskResponse { clicked: true, double_clicked: false, task_to_complete: None, display_index: 2 },
        TaskResponse { clicked: false, double_clicked: false, task_to_complete: Some(5), display_index: 4 },
    ];
    handle_task_responses(&mut app, &mut text, &responses);
    assert_eq!(text, "draft");
    assert!(matches!(app.tasks[4].status, TaskStatus::Done));
    assert_eq!(app.activity_log.latest_message(), Some("Completed task: Call"));

    entry_clicked(&mut app, &mut text);
    assert_eq!(text, "");
    assert_eq!(app.display_container_state.focused_index, Some(0));

    app.display_container_state.request_focus_next_frame = true;
    assert!(take_focus_request(&mut app.display_container_state));
    assert!(!take_focus_request(&mut app.display_container_state));
}

#[test]
fn terminal_messages() {
    let input = TerminalMessage { message_type: "input".to_string(), data: Some("ls\n".to_string()), cols: None, rows: None };
    assert!(matches!(terminal_action(input), TerminalAction::WriteInput(d) if d == "ls\n"));
    let resize = TerminalMessage { message_type: "resize".to_string(), data: None, cols: Some(120), rows: Some(40) };
    assert!(matches!(terminal_action(resize), TerminalAction::Resize { cols: 120, rows: 40 }));
    let partial = TerminalMessage { message_type: "resize".to_string(), data: None, cols: Some(120), rows: None };
    assert!(matches!(terminal_action(partial), TerminalAction::MissingSize));
    let empty = TerminalMessage { message_type: "input".to_string(), data: None, cols: None, rows: None };
    assert!(matches!(terminal_action(empty), TerminalAction::MissingData));
    let other = TerminalMessage { message_type: "ping".to_string(), data: None, cols: None, rows: None };
    assert!(matches!(terminal_action(other), TerminalAction::Unknown(t) if t == "ping"));
    let out = output_message("hi".to_string());
    assert_eq!(out.message_type, "output");
    assert_eq!(out.data.as_deref(), Some("hi"));
    assert_eq!(initial_size(), (24, 80));
}

#[test]
fn configuration_defaults() {
    assert_eq!(default_genius_api_url(), "https://api.genius.example.com");
    assert_eq!(default_timeout_secs(), 10);
    let config = GeniusConfig::default();
    assert!(config.api_key.is_none());
    assert_eq!(config.base_url, "");
    assert_eq!(config.timeout_secs, 0);
    let fallback = fallback_config();
    assert!(fallback.genius.api_key.is_none());
    assert_eq!(fallback.genius.base_url, "https://api.genius.example.com");
    assert_eq!(fallback.genius.timeout_secs, 10);
}

#[test]
fn listed_indices_lead_back_to_their_tasks() {
    let tasks = vec![
        TaskBuilder::new(1).content("Plan").children(vec![2, 3]).build(),
        TaskBuilder::new(2).content("Book").parent(1).children(vec![6]).build(),
        TaskBuilder::new(3).content("Pack").parent(1).build(),
        TaskBuilder::new(4).content("Later").container(TaskContainer::Shelved).build(),
        TaskBuilder::new(5).content("Call").build(),
        TaskBuilder::new(6).content("Seats").parent(2).build(),
    ];
    let mut state = DisplayContainerState::new();
    state.update_display_order(&tasks);
    for (p, index) in collect_rows(&tasks, &state) {
        assert_eq!(state.get_task_id_by_path(&index.to_string(), &tasks), Some(tasks[p].id));
    }
}

#[test]
fn task_index_text_round_trip() {
    let index = TaskIndex::from_path(vec![3, 12, 1]);
    assert_eq!(index.to_string(), "3.12.1");
    let back = TaskIndex::from_str(&index.to_string()).unwrap();
    assert_eq!(back.path(), &[3, 12, 1]);
    assert!(TaskIndex::from_str("1..2").is_err());
    assert!(TaskIndex::from_str("").is_err());
    assert!(TaskIndex::from_str("0.1").is_err());
}

#[test]
fn refreshing_twice_is_refreshing_once() {
    let tasks = nested_tasks();
    let mut state = DisplayContainerState::new();
    state.focused_index = Some(9);
    state.update_display_order(&tasks);
    let once = (state.display_to_id.clone(), state.focused_index, state.input_value().to_string());
    state.update_display_order(&tasks);
    let twice = (state.display_to_id.clone(), state.focused_index, state.input_value().to_string());
    assert_eq!(once, twice);
    assert_eq!(once.1, Some(0));
}

#[test]
fn typing_then_backspace_restores_input() {
    let mut input = cyberorganism::display_container::InputBuffer::with_cursor("abc".to_string(), 1);
    input.handle(cyberorganism::display_container::EditRequest::InsertChar('x'));
    assert_eq!(input.value(), "axbc");
    assert_eq!(input.cursor(), 2);
    input.handle(cyberorganism::display_container::EditRequest::DeletePrevChar);
    assert_eq!(input.value(), "abc");
    assert_eq!(input.cursor(), 1);
}
