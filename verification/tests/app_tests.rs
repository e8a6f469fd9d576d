use todo::app::{dispatch, dispatch_with, Action, AppCommand, AppState, PanelFocus};
use todo::fresh::Fresh;
use todo::models::{Filter, Group, Mode, Timestamp, Todo};

fn build_state() -> AppState {
    let g1 = Group::new("g1".into());
    let g2 = Group::new("g2".into());
    let t1 = Todo::new("one".into(), g1.id);
    let t2 = Todo::new("two".into(), g1.id);
    let t3 = Todo::new("three".into(), g2.id);
    AppState::new(vec![g1, g2], vec![t1, t2, t3])
}

fn stamp(days: i32) -> Timestamp {
    Timestamp { days_from_ce: days, secs_of_day: 3600, nanos: 0 }
}

fn group(id: u128, name: &str) -> Group {
    Group { id, name: name.to_string(), created_at: stamp(738000) }
}

fn todo(id: u128, group_id: u128, title: &str, completed: bool) -> Todo {
    Todo {
        id,
        group_id,
        title: title.to_string(),
        completed,
        created_at: stamp(738000),
        completed_at: None,
    }
}

#[test]
fn add_todo_in_todo_panel() {
    let mut state = build_state();
    state.focused_panel = PanelFocus::Todos;

    dispatch(Action::StartAdd, &mut state);
    for c in "task".chars() {
        dispatch(Action::InputChar(c), &mut state);
    }

    let cmd = dispatch(Action::Submit, &mut state);
    assert_eq!(cmd, AppCommand::Save);
    assert_eq!(state.mode, Mode::Normal);
    assert_eq!(state.todos[0].title, "task");
    assert_eq!(state.todos[0].group_id, state.groups[0].id);
}

#[test]
fn add_group_in_group_panel() {
    let mut state = build_state();
    state.focused_panel = PanelFocus::Groups;

    dispatch(Action::StartAdd, &mut state);
    for c in "new group".chars() {
        dispatch(Action::InputChar(c), &mut state);
    }

    let cmd = dispatch(Action::Submit, &mut state);
    assert_eq!(cmd, AppCommand::Save);
    assert_eq!(state.groups[0].name, "new group");
    assert_eq!(state.selected_group_index, 0);
}

#[test]
fn move_group_selection_updates_visible_todos() {
    let mut state = build_state();
    state.focused_panel = PanelFocus::Groups;
    assert_eq!(state.filtered_todo_indices().len(), 2);

    dispatch(Action::MoveDown, &mut state);

    assert_eq!(state.selected_group_index, 1);
    assert_eq!(state.filtered_todo_indices().len(), 1);
}

#[test]
fn cannot_delete_last_group() {
    let group = Group::new("only".into());
    let mut state = AppState::new(vec![group], vec![]);
    state.focused_panel = PanelFocus::Groups;

    let cmd = dispatch(Action::StartDeleteConfirm, &mut state);

    assert_eq!(cmd, AppCommand::Nothing);
    assert_eq!(state.mode, Mode::Normal);
    assert_eq!(
        state.status_message.as_deref(),
        Some("Cannot delete the last group")
    );
}

#[test]
fn deleting_group_cascades_todos() {
    let mut state = build_state();
    state.focused_panel = PanelFocus::Groups;

    dispatch(Action::StartDeleteConfirm, &mut state);
    let cmd = dispatch(Action::Submit, &mut state);

    assert_eq!(cmd, AppCommand::Save);
    assert_eq!(state.groups.len(), 1);
    assert_eq!(state.todos.len(), 1);
}

#[test]
fn filter_applies_only_in_todo_panel() {
    let mut state = build_state();
    state.todos[0].completed = true;

    state.focused_panel = PanelFocus::Groups;
    dispatch(Action::CycleFilter, &mut state);
    assert_eq!(state.filter, Filter::All);

    state.focused_panel = PanelFocus::Todos;
    dispatch(Action::CycleFilter, &mut state);
    assert_eq!(state.filter, Filter::Open);
}

#[test]
fn text_input_cursor_move_and_insert() {
    let mut state = build_state();
    state.focused_panel = PanelFocus::Todos;
    dispatch(Action::StartAdd, &mut state);

    dispatch(Action::InputChar('a'), &mut state);
    dispatch(Action::InputChar('c'), &mut state);
    dispatch(Action::MoveCursorLeft, &mut state);
    dispatch(Action::InputChar('b'), &mut state);

    assert_eq!(state.input_buffer, "abc");
    assert_eq!(state.input_cursor, 2);
}

#[test]
fn text_input_backspace_at_cursor() {
    let mut state = build_state();
    state.focused_panel = PanelFocus::Todos;
    dispatch(Action::StartAdd, &mut state);

    dispatch(Action::InputChar('a'), &mut state);
    dispatch(Action::InputChar('b'), &mut state);
    dispatch(Action::InputChar('c'), &mut state);
    dispatch(Action::MoveCursorLeft, &mut state);
    dispatch(Action::Backspace, &mut state);

    assert_eq!(state.input_buffer, "ac");
    assert_eq!(state.input_cursor, 1);
}

#[test]
fn new_state_fills_completion_dates_and_drops_orphans() {
    let mut done = todo(10, 1, "done", true);
    done.created_at = stamp(738500);
    let orphan = todo(11, 99, "orphan", false);
    let open = todo(12, 1, "open", false);
    let state = AppState::new(vec![group(1, "a")], vec![done, orphan, open]);
    assert_eq!(state.todos.len(), 2);
    assert_eq!(state.todos[0].id, 10);
    assert_eq!(state.todos[0].completed_at.map(|d| d.days_from_ce), Some(738500));
    assert_eq!(state.todos[1].id, 12);
    assert_eq!(state.todos[1].completed_at, None);
    assert_eq!(state.selected_group_index, 0);
    assert_eq!(state.selected_todo_index, 0);
    assert_eq!(state.focused_panel, PanelFocus::Todos);
    assert!(state.show_help);
    assert_eq!(state.mode, Mode::Normal);
}

#[test]
fn new_state_without_groups_gets_an_inbox() {
    let state = AppState::new(vec![], vec![todo(1, 5, "lost", false)]);
    assert_eq!(state.groups.len(), 1);
    assert_eq!(state.groups[0].name, "Inbox");
    assert_eq!((state.groups[0].id >> 76) & 0xf, 4);
    assert_eq!((state.groups[0].id >> 62) & 0x3, 2);
    assert!(state.todos.is_empty());
}

#[test]
fn toggle_marks_done_with_the_day_and_back() {
    let mut state = AppState::new(vec![group(1, "a")], vec![todo(7, 1, "t", false)]);
    let now = Timestamp { days_from_ce: 739000, secs_of_day: 10, nanos: 5 };
    let fresh = Fresh { id: 1234, now };
    let cmd = dispatch_with(Action::ToggleSelected, &mut state, fresh);
    assert_eq!(cmd, AppCommand::Save);
    assert!(state.todos[0].completed);
    assert_eq!(state.todos[0].completed_at.map(|d| d.days_from_ce), Some(739000));
    let cmd = dispatch_with(Action::ToggleSelected, &mut state, fresh);
    assert_eq!(cmd, AppCommand::Save);
    assert!(!state.todos[0].completed);
    assert_eq!(state.todos[0].completed_at, None);
}

#[test]
fn toggle_without_todo_reports() {
    let mut state = AppState::new(vec![group(1, "a")], vec![]);
    let cmd = dispatch(Action::ToggleSelected, &mut state);
    assert_eq!(cmd, AppCommand::Nothing);
    assert_eq!(state.status_message.as_deref(), Some("No todo selected to toggle"));
}

#[test]
fn open_filter_hides_done_todos_and_keeps_selection() {
    let mut state = AppState::new(
        vec![group(1, "a")],
        vec![todo(1, 1, "x", true), todo(2, 1, "y", false), todo(3, 1, "z", false)],
    );
    state.selected_todo_index = 2;
    dispatch(Action::CycleFilter, &mut state);
    assert_eq!(state.filter, Filter::Open);
    assert_eq!(state.filtered_todo_indices(), vec![1, 2]);
    assert_eq!(state.selected_todo_index, 1);
    assert_eq!(state.selected_todo_id(), Some(3));
    dispatch(Action::CycleFilter, &mut state);
    assert_eq!(state.filter, Filter::Done);
    assert_eq!(state.filtered_todo_indices(), vec![0]);
    assert_eq!(state.selected_todo_index, 0);
    dispatch(Action::CycleFilter, &mut state);
    assert_eq!(state.filter, Filter::All);
}

#[test]
fn add_with_fresh_values_uses_them() {
    let mut state = AppState::new(vec![group(1, "a"), group(2, "b")], vec![todo(5, 2, "t", false)]);
    state.focused_panel = PanelFocus::Groups;
    let now = Timestamp { days_from_ce: 739001, secs_of_day: 0, nanos: 0 };
    dispatch_with(Action::StartAdd, &mut state, Fresh { id: 0, now });
    assert_eq!(state.mode, Mode::AddingGroup);
    for c in "  fresh ".chars() {
        dispatch_with(Action::InputChar(c), &mut state, Fresh { id: 0, now });
    }
    let cmd = dispatch_with(Action::Submit, &mut state, Fresh { id: 77, now });
    assert_eq!(cmd, AppCommand::Save);
    assert_eq!(state.groups[0].id, 77);
    assert_eq!(state.groups[0].name, "fresh");
    assert_eq!(state.groups[0].created_at, now);
    assert_eq!(state.selected_group_index, 0);
    assert!(state.filtered_todo_indices().is_empty());
    assert_eq!(state.input_buffer, "");
    assert_eq!(state.input_cursor, 0);
}

#[test]
fn blank_title_is_refused() {
    let mut state = build_state();
    dispatch(Action::StartAdd, &mut state);
    dispatch(Action::InputChar(' '), &mut state);
    dispatch(Action::InputChar('\t'), &mut state);
    let cmd = dispatch(Action::Submit, &mut state);
    assert_eq!(cmd, AppCommand::Nothing);
    assert_eq!(state.mode, Mode::AddingTodo);
    assert_eq!(state.status_message.as_deref(), Some("Title cannot be empty"));
    assert_eq!(state.todos.len(), 3);
}

#[test]
fn edit_todo_keeps_its_place() {
    let mut state = AppState::new(vec![group(1, "a")], vec![todo(1, 1, "old", false), todo(2, 1, "other", false)]);
    dispatch(Action::StartEdit, &mut state);
    assert_eq!(state.mode, Mode::EditingTodo);
    assert_eq!(state.input_buffer, "old");
    assert_eq!(state.input_cursor, 3);
    dispatch(Action::Backspace, &mut state);
    dispatch(Action::InputChar('k'), &mut state);
    let cmd = dispatch(Action::Submit, &mut state);
    assert_eq!(cmd, AppCommand::Save);
    assert_eq!(state.todos[0].title, "olk");
    assert_eq!(state.todos[0].id, 1);
    assert_eq!(state.todos.len(), 2);
}

#[test]
fn delete_todo_after_confirm_and_cancel() {
    let mut state = AppState::new(vec![group(1, "a")], vec![todo(1, 1, "a", false), todo(2, 1, "b", false)]);
    state.selected_todo_index = 1;
    dispatch(Action::StartDeleteConfirm, &mut state);
    assert_eq!(state.mode, Mode::ConfirmDeleteTodo);
    dispatch(Action::Cancel, &mut state);
    assert_eq!(state.mode, Mode::Normal);
    assert_eq!(state.todos.len(), 2);
    dispatch(Action::StartDeleteConfirm, &mut state);
    let cmd = dispatch(Action::Submit, &mut state);
    assert_eq!(cmd, AppCommand::Save);
    assert_eq!(state.todos.len(), 1);
    assert_eq!(state.todos[0].id, 1);
    assert_eq!(state.selected_todo_index, 0);
}

#[test]
fn moving_selection_stops_at_the_ends() {
    let mut state = AppState::new(vec![group(1, "a")], vec![todo(1, 1, "a", false), todo(2, 1, "b", false)]);
    dispatch(Action::MoveUp, &mut state);
    assert_eq!(state.selected_todo_index, 0);
    dispatch(Action::MoveDown, &mut state);
    dispatch(Action::MoveDown, &mut state);
    assert_eq!(state.selected_todo_index, 1);
    dispatch(Action::FocusLeft, &mut state);
    assert_eq!(state.focused_panel, PanelFocus::Groups);
    dispatch(Action::MoveDown, &mut state);
    assert_eq!(state.selected_group_index, 0);
    dispatch(Action::FocusRight, &mut state);
    assert_eq!(state.focused_panel, PanelFocus::Todos);
}

#[test]
fn quit_and_help_toggle() {
    let mut state = build_state();
    assert!(state.show_help);
    assert_eq!(dispatch(Action::ToggleHelp, &mut state), AppCommand::Nothing);
    assert!(!state.show_help);
    assert_eq!(dispatch(Action::Quit, &mut state), AppCommand::Quit);
    assert_eq!(state.mode, Mode::Normal);
}

#[test]
fn typing_then_backspace_restores_text() {
    let mut state = build_state();
    dispatch(Action::StartAdd, &mut state);
    for c in "héllo".chars() {
        dispatch(Action::InputChar(c), &mut state);
    }
    dispatch(Action::MoveCursorLeft, &mut state);
    dispatch(Action::MoveCursorLeft, &mut state);
    dispatch(Action::InputChar('ü'), &mut state);
    assert_eq!(state.input_buffer, "hélülo");
    assert_eq!(state.input_cursor, 4);
    dispatch(Action::Backspace, &mut state);
    assert_eq!(state.input_buffer, "héllo");
    assert_eq!(state.input_cursor, 3);
    dispatch(Action::MoveCursorEnd, &mut state);
    assert_eq!(state.input_cursor, 5);
    dispatch(Action::MoveCursorRight, &mut state);
    assert_eq!(state.input_cursor, 5);
    dispatch(Action::MoveCursorHome, &mut state);
    assert_eq!(state.input_cursor, 0);
    dispatch(Action::Cancel, &mut state);
    assert_eq!(state.mode, Mode::Normal);
    assert_eq!(state.input_buffer, "");
}

#[test]
fn group_progress_counts() {
    let state = AppState::new(
        vec![group(1, "a"), group(2, "b")],
        vec![todo(1, 1, "a", true), todo(2, 1, "b", false), todo(3, 2, "c", true)],
    );
    assert_eq!(state.group_progress(1), (1, 2));
    assert_eq!(state.group_progress(2), (1, 1));
    assert_eq!(state.group_progress(3), (0, 0));
}

#[test]
fn all_lists_open_and_done_together() {
    let mut state = AppState::new(
        vec![group(1, "a")],
        vec![todo(1, 1, "a", true), todo(2, 1, "b", false), todo(3, 1, "c", true)],
    );
    let all = state.filtered_todo_indices();
    state.filter = Filter::Open;
    let open = state.filtered_todo_indices();
    state.filter = Filter::Done;
    let done = state.filtered_todo_indices();
    assert_eq!(all, vec![0, 1, 2]);
    assert_eq!(open, vec![1]);
    assert_eq!(done, vec![0, 2]);
}

#[test]
fn normalizing_twice_changes_nothing() {
    let mut state = AppState::new(
        vec![group(1, "a"), group(2, "b")],
        vec![todo(1, 1, "a", false), todo(2, 2, "b", false)],
    );
    state.selected_group_index = 7;
    state.selected_todo_index = 4;
    state.normalize_selection();
    assert_eq!(state.selected_group_index, 1);
    assert_eq!(state.selected_todo_index, 0);
    state.normalize_selection();
    assert_eq!(state.selected_group_index, 1);
    assert_eq!(state.selected_todo_index, 0);
}

#[test]
fn blank_submit_and_missing_toggle_draw_nothing() {
    let mut state = AppState::new(vec![group(1, "a")], vec![]);
    assert_eq!(dispatch(Action::ToggleSelected, &mut state), AppCommand::Nothing);
    dispatch(Action::StartAdd, &mut state);
    assert_eq!(dispatch(Action::Submit, &mut state), AppCommand::Nothing);
    assert_eq!(state.mode, Mode::AddingTodo);
    assert!(state.todos.is_empty());
}
