use std::io::{Error, ErrorKind};

use todo::app::{Action};
use todo::input::{map_key_to_action, KeyCode, KeyEvent, KeyEventKind};
use todo::models::{Filter, Group, Mode, Timestamp, Todo};
use todo::storage::{data_file_components, ignore_if_not_found, ignore_when_not_found};
use todo::text::{char_count, insert_char_at, remove_char_before, split_at_cursor, trim};

fn press(code: KeyCode) -> KeyEvent {
    KeyEvent { code, kind: KeyEventKind::Press, control: false }
}

#[test]
fn filter_cycles_through_three() {
    assert_eq!(Filter::All.next(), Filter::Open);
    assert_eq!(Filter::Open.next(), Filter::Done);
    assert_eq!(Filter::Done.next(), Filter::All);
    for f in [Filter::All, Filter::Open, Filter::Done] {
        assert_eq!(f.next().next().next(), f);
    }
}

#[test]
fn filter_labels() {
    assert_eq!(Filter::All.label(), "all");
    assert_eq!(Filter::Open.label(), "open");
    assert_eq!(Filter::Done.label(), "done");
}

#[test]
fn timestamp_date_is_its_day() {
    let t = Timestamp { days_from_ce: 739_000, secs_of_day: 86_399, nanos: 1 };
    assert_eq!(t.date().days_from_ce, 739_000);
}

#[test]
fn new_group_and_todo() {
    let g = Group::new("inbox".to_string());
    assert_eq!(g.name, "inbox");
    assert_eq!((g.id >> 76) & 0xf, 4);
    assert!(g.created_at.secs_of_day < 86_400);
    let t = Todo::new("task".to_string(), g.id);
    assert_eq!(t.title, "task");
    assert_eq!(t.group_id, g.id);
    assert!(!t.completed);
    assert_eq!(t.completed_at, None);
    assert_ne!(t.id, g.id);
}

#[test]
fn keys_in_normal_mode() {
    assert_eq!(map_key_to_action(Mode::Normal, press(KeyCode::Char('q'))), Action::Quit);
    assert_eq!(map_key_to_action(Mode::Normal, press(KeyCode::Char('j'))), Action::MoveDown);
    assert_eq!(map_key_to_action(Mode::Normal, press(KeyCode::Up)), Action::MoveUp);
    assert_eq!(map_key_to_action(Mode::Normal, press(KeyCode::Left)), Action::FocusLeft);
    assert_eq!(map_key_to_action(Mode::Normal, press(KeyCode::Char('l'))), Action::FocusRight);
    assert_eq!(map_key_to_action(Mode::Normal, press(KeyCode::Enter)), Action::ToggleSelected);
    assert_eq!(map_key_to_action(Mode::Normal, press(KeyCode::Char('f'))), Action::CycleFilter);
    assert_eq!(map_key_to_action(Mode::Normal, press(KeyCode::Char('.'))), Action::ToggleHelp);
    assert_eq!(map_key_to_action(Mode::Normal, press(KeyCode::Char('z'))), Action::NoOp);
    assert_eq!(map_key_to_action(Mode::Normal, press(KeyCode::Esc)), Action::NoOp);
}

#[test]
fn keys_in_dialogs() {
    assert_eq!(map_key_to_action(Mode::AddingTodo, press(KeyCode::Char('q'))), Action::InputChar('q'));
    let ctrl = KeyEvent { code: KeyCode::Char('c'), kind: KeyEventKind::Press, control: true };
    assert_eq!(map_key_to_action(Mode::EditingGroup, ctrl), Action::NoOp);
    assert_eq!(map_key_to_action(Mode::EditingTodo, press(KeyCode::Backspace)), Action::Backspace);
    assert_eq!(map_key_to_action(Mode::AddingGroup, press(KeyCode::Left)), Action::NoOp);
    assert_eq!(map_key_to_action(Mode::ConfirmDeleteGroup, press(KeyCode::Enter)), Action::Submit);
    assert_eq!(map_key_to_action(Mode::ConfirmDeleteTodo, press(KeyCode::Esc)), Action::Cancel);
    assert_eq!(map_key_to_action(Mode::ConfirmDeleteTodo, press(KeyCode::Char('y'))), Action::NoOp);
}

#[test]
fn only_presses_count() {
    let release = KeyEvent { code: KeyCode::Char('q'), kind: KeyEventKind::Release, control: false };
    let repeat = KeyEvent { code: KeyCode::Enter, kind: KeyEventKind::Repeat, control: false };
    assert_eq!(map_key_to_action(Mode::Normal, release), Action::NoOp);
    assert_eq!(map_key_to_action(Mode::AddingTodo, repeat), Action::NoOp);
}

#[test]
fn trimming_white_space() {
    assert_eq!(trim(&" \t a b\n\u{3000}".to_string()), "a b");
    assert_eq!(trim(&"   ".to_string()), "");
    assert_eq!(trim(&"x".to_string()), "x");
}

#[test]
fn editing_by_character_position() {
    let s = "añc".to_string();
    assert_eq!(char_count("añc"), 3);
    assert_eq!(insert_char_at(&s, 1, 'b'), "abñc");
    assert_eq!(insert_char_at(&s, 9, 'd'), "añcd");
    assert_eq!(remove_char_before(&s, 2), "ac");
    assert_eq!(remove_char_before(&s, 0), "añc");
    assert_eq!(remove_char_before(&s, 4), "añc");
}

#[test]
fn cursor_split() {
    let s = "héllo".to_string();
    assert_eq!(split_at_cursor(&s, 1), ("h".to_string(), 'é', "llo".to_string()));
    assert_eq!(split_at_cursor(&s, 5), ("héllo".to_string(), ' ', String::new()));
    assert_eq!(split_at_cursor(&s, 9), ("héllo".to_string(), ' ', String::new()));
}

#[test]
fn missing_file_is_no_error() {
    assert!(ignore_if_not_found(Error::from(ErrorKind::NotFound)).is_ok());
    let err = ignore_if_not_found(Error::from(ErrorKind::PermissionDenied)).unwrap_err();
    assert_eq!(err.kind(), ErrorKind::PermissionDenied);
}

#[test]
fn outcome_for_each_answer() {
    assert!(ignore_when_not_found(true, Error::from(ErrorKind::NotFound)).is_ok());
    let err = ignore_when_not_found(false, Error::from(ErrorKind::Other)).unwrap_err();
    assert_eq!(err.kind(), ErrorKind::Other);
}

#[test]
fn data_file_location() {
    assert_eq!(data_file_components(true), vec!["simple-todo-tui", "todos.json"]);
    assert_eq!(data_file_components(false), vec!["todos.json"]);
}

#[test]
fn todo_row_texts() {
    let mut t = Todo::new("x".to_string(), 1);
    assert_eq!(t.mark(), "[ ]");
    assert_eq!(t.shown_date(), None);
    t.completed = true;
    t.created_at = Timestamp { days_from_ce: 738_000, secs_of_day: 0, nanos: 0 };
    assert_eq!(t.mark(), "[x]");
    assert_eq!(t.shown_date().map(|d| d.days_from_ce), Some(738_000));
    t.completed_at = Some(todo::models::Date { days_from_ce: 738_005 });
    assert_eq!(t.shown_date().map(|d| d.days_from_ce), Some(738_005));
    assert_eq!(Filter::All.empty_message(), "No todos in this group. Press 'a' to add one.");
    assert_eq!(Filter::Done.empty_message(), "No todos in this filter for selected group.");
}
