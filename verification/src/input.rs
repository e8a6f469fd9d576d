//! Which action a key press asks for, by mode.
use vstd::prelude::*;

use crate::app::Action;
use crate::models::Mode;

verus! {

/// The keys the app tells apart; every other key is `Other`.
#[derive(Debug, Clone, Copy, PartialEq, Eq, Structural)]
pub enum KeyCode {
    Char(char),
    Up,
    Down,
    Left,
    Right,
    Enter,
    Esc,
    Backspace,
    Other,
}

/// Whether a key went down, repeated, or came up.
#[derive(Debug, Clone, Copy, PartialEq, Eq, Structural)]
pub enum KeyEventKind {
    Press,
    Repeat,
    Release,
}

/// A key event: the key, its kind, and whether Control was held.
#[derive(Debug, Clone, Copy, PartialEq, Eq, Structural)]
pub struct KeyEvent {
    pub code: KeyCode,
    pub kind: KeyEventKind,
    pub control: bool,
}

/// The action of a key in the lists.
pub open spec fn normal_key_action(code: KeyCode) -> Action {
    match code {
        KeyCode::Char('q') => Action::Quit,
        KeyCode::Char('j') | KeyCode::Down => Action::MoveDown,
        KeyCode::Char('k') | KeyCode::Up => Action::MoveUp,
        KeyCode::Char('h') | KeyCode::Left => Action::FocusLeft,
        KeyCode::Char('l') | KeyCode::Right => Action::FocusRight,
        KeyCode::Char('a') => Action::StartAdd,
        KeyCode::Char('e') => Action::StartEdit,
        KeyCode::Char('x') | KeyCode::Enter => Action::ToggleSelected,
        KeyCode::Char('d') => Action::StartDeleteConfirm,
        KeyCode::Char('f') => Action::CycleFilter,
        KeyCode::Char('.') => Action::ToggleHelp,
        _ => Action::NoOp,
    }
}

/// The action of a key in a text dialog: a character without Control is
/// typed.
pub open spec fn text_key_action(key: KeyEvent) -> Action {
    match key.code {
        KeyCode::Esc => Action::Cancel,
        KeyCode::Enter => Action::Submit,
        KeyCode::Backspace => Action::Backspace,
        KeyCode::Char(c) => if key.control {
            Action::NoOp
        } else {
            Action::InputChar(c)
        },
        _ => Action::NoOp,
    }
}

/// The action of a key in a confirmation dialog.
pub open spec fn confirm_key_action(code: KeyCode) -> Action {
    match code {
        KeyCode::Esc => Action::Cancel,
        KeyCode::Enter => Action::Submit,
        _ => Action::NoOp,
    }
}

/// The action of a key event in a mode: only presses count.
pub open spec fn key_action(mode: Mode, key: KeyEvent) -> Action {
    if key.kind != KeyEventKind::Press {
        Action::NoOp
    } else if mode is Normal {
        normal_key_action(key.code)
    } else if mode.is_text_input() {
        text_key_action(key)
    } else {
        confirm_key_action(key.code)
    }
}

/// The action that a key event asks for in the given mode.
pub fn map_key_to_action(mode: Mode, key: KeyEvent) -> (a: Action)
    ensures
        a == key_action(mode, key),
{
    if key.kind != KeyEventKind::Press {
        return Action::NoOp;
    }
    match mode {
        Mode::Normal => map_normal_mode(key),
        Mode::AddingTodo | Mode::EditingTodo | Mode::AddingGroup | Mode::EditingGroup => {
            map_text_input_mode(key)
        },
        Mode::ConfirmDeleteTodo | Mode::ConfirmDeleteGroup => map_confirm_delete_mode(key),
    }
}

fn map_normal_mode(key: KeyEvent) -> (a: Action)
    ensures
        a == normal_key_action(key.code),
{
    match key.code {
        KeyCode::Char('q') => Action::Quit,
        KeyCode::Char('j') | KeyCode::Down => Action::MoveDown,
        KeyCode::Char('k') | KeyCode::Up => Action::MoveUp,
        KeyCode::Char('h') | KeyCode::Left => Action::FocusLeft,
        KeyCode::Char('l') | KeyCode::Right => Action::FocusRight,
        KeyCode::Char('a') => Action::StartAdd,
        KeyCode::Char('e') => Action::StartEdit,
        KeyCode::Char('x') | KeyCode::Enter => Action::ToggleSelected,
        KeyCode::Char('d') => Action::StartDeleteConfirm,
        KeyCode::Char('f') => Action::CycleFilter,
        KeyCode::Char('.') => Action::ToggleHelp,
        _ => Action::NoOp,
    }
}

fn map_text_input_mode(key: KeyEvent) -> (a: Action)
    ensures
        a == text_key_action(key),
{
    match key.code {
        KeyCode::Esc => Action::Cancel,
        KeyCode::Enter => Action::Submit,
        KeyCode::Backspace => Action::Backspace,
        KeyCode::Char(c) => {
            if key.control {
                Action::NoOp
            } else {
                Action::InputChar(c)
            }
        },
        _ => Action::NoOp,
    }
}

fn map_confirm_delete_mode(key: KeyEvent) -> (a: Action)
    ensures
        a == confirm_key_action(key.code),
{
    match key.code {
        KeyCode::Esc => Action::Cancel,
        KeyCode::Enter => Action::Submit,
        _ => Action::NoOp,
    }
}

} // verus!
