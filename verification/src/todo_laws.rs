//! What editing, toggling and deleting a todo, loading saved todos, and the
//! keys of the lists do, stated over their inputs and results.
use vstd::prelude::*;

use crate::app::{group_ids, step, AppCommand, AppView, Action, PanelFocus};
use crate::fresh::Fresh;
use crate::input::{key_action, KeyCode, KeyEvent, KeyEventKind};
use crate::models::{GroupView, Mode, TodoView};
use crate::text::trimmed;

verus! {

/// No two todos share an identifier.
pub open spec fn todo_ids_unique(todos: Seq<TodoView>) -> bool {
    forall|i: int, j: int|
        0 <= i < j < todos.len() ==> #[trigger] todos[i].id != #[trigger] todos[j].id
}

/// The completion date a loaded todo ends up with: its saved one, if any;
/// otherwise its creation day when it is completed; otherwise none.
pub open spec fn date_after_loading(t: TodoView) -> Option<crate::models::Date> {
    match t.completed_at {
        Some(d) => Some(d),
        None => if t.completed {
            Some(t.created_at.spec_date())
        } else {
            None
        },
    }
}

/// A saved todo as loading leaves it: all its fields, and the completion
/// date [`date_after_loading`].
pub open spec fn as_loaded(t: TodoView) -> TodoView {
    TodoView { completed_at: date_after_loading(t), ..t }
}

/// Loading keeps exactly the todos of listed groups, in their order, each
/// with all its fields and the completion date [`date_after_loading`]: a
/// saved completion date is kept, and only a completed todo without one gets
/// the day it was created.
pub proof fn law_loading_keeps_saved_dates(todos: Seq<TodoView>, groups: Seq<GroupView>)
    ensures
        crate::app::loaded_todos(todos, groups) == todos.filter(
            |t: TodoView| group_ids(groups).contains(t.group_id),
        ).map_values(|t: TodoView| as_loaded(t)),
    decreases todos.len(),
{
    let pred = |t: TodoView| group_ids(groups).contains(t.group_id);
    let mapped = todos.map_values(|t: TodoView| crate::app::with_completion_date(t));
    reveal(Seq::filter);
    if todos.len() > 0 {
        let init = todos.drop_last();
        law_loading_keeps_saved_dates(init, groups);
        let last = todos.last();
        assert(mapped.drop_last() =~= init.map_values(
            |t: TodoView| crate::app::with_completion_date(t),
        ));
        assert(mapped.last() == crate::app::with_completion_date(last));
        assert(crate::app::with_completion_date(last) == as_loaded(last));
        if pred(last) {
            assert(todos.filter(pred) == init.filter(pred).push(last));
            assert(todos.filter(pred).map_values(|t: TodoView| as_loaded(t)) =~= init.filter(
                pred,
            ).map_values(|t: TodoView| as_loaded(t)).push(as_loaded(last)));
        } else {
            assert(todos.filter(pred) == init.filter(pred));
        }
    } else {
        assert(mapped =~= Seq::<TodoView>::empty());
        assert(todos.filter(pred).map_values(|t: TodoView| as_loaded(t)) =~= Seq::<
            TodoView,
        >::empty());
    }
}

/// Submitting a non-blank edit of a todo renames exactly the selected todo
/// (the one whose identifier `selected_todo_id` gives) to the trimmed text;
/// every other todo is unchanged, and the change is saved.
#[verifier::rlimit(40)]
pub proof fn law_edit_renames_the_selected_todo(s: AppView, f: Fresh, id: u128)
    requires
        s.mode is EditingTodo,
        trimmed(s.input).len() > 0,
        s.selected_todo_id() == Some(id),
        todo_ids_unique(s.todos),
    ensures
        step(s, Action::Submit, f).1 == AppCommand::Save,
        step(s, Action::Submit, f).0.todos.len() == s.todos.len(),
        forall|k: int|
            0 <= k < s.todos.len() ==> (#[trigger] step(s, Action::Submit, f).0.todos[k]) == (
            if s.todos[k].id == id {
                TodoView { title: trimmed(s.input), ..s.todos[k] }
            } else {
                s.todos[k]
            }),
{
    crate::app::lemma_selected_todo_in_range(s);
    let i = s.selected_todo()->0 as int;
    assert forall|k: int| 0 <= k < s.todos.len() && k != i implies s.todos[k].id != id by {
        if k < i {
            assert(s.todos[k].id != s.todos[i].id);
        } else {
            assert(s.todos[i].id != s.todos[k].id);
        }
    }
}

/// Marking the selected todo flips the completed flag of exactly the todo
/// whose identifier `selected_todo_id` gives, stamping it with the day of
/// `f` when it becomes completed and clearing its date when it reopens;
/// every other todo is unchanged, and the change is saved.
#[verifier::rlimit(40)]
pub proof fn law_toggle_flips_the_selected_todo(s: AppView, f: Fresh, id: u128)
    requires
        s.mode is Normal,
        s.focus == PanelFocus::Todos,
        s.selected_todo_id() == Some(id),
        todo_ids_unique(s.todos),
    ensures
        step(s, Action::ToggleSelected, f).1 == AppCommand::Save,
        step(s, Action::ToggleSelected, f).0.todos.len() == s.todos.len(),
        forall|k: int|
            0 <= k < s.todos.len() ==> (#[trigger] step(s, Action::ToggleSelected, f).0.todos[k])
                == (if s.todos[k].id == id {
                TodoView {
                    completed: !s.todos[k].completed,
                    completed_at: if s.todos[k].completed {
                        None
                    } else {
                        Some(f.now.spec_date())
                    },
                    ..s.todos[k]
                }
            } else {
                s.todos[k]
            }),
{
    crate::app::lemma_selected_todo_in_range(s);
    let i = s.selected_todo()->0 as int;
    assert forall|k: int| 0 <= k < s.todos.len() && k != i implies s.todos[k].id != id by {
        if k < i {
            assert(s.todos[k].id != s.todos[i].id);
        } else {
            assert(s.todos[i].id != s.todos[k].id);
        }
    }
}

/// A filter drops a single element that fails it.
proof fn lemma_filter_single_dropped(x: TodoView, pred: spec_fn(TodoView) -> bool)
    requires
        !pred(x),
    ensures
        seq![x].filter(pred) == Seq::<TodoView>::empty(),
{
    reveal_with_fuel(Seq::filter, 2);
    assert(seq![x].drop_last() =~= Seq::<TodoView>::empty());
    assert(seq![x].last() == x);
}

/// A filter that every element passes keeps the whole sequence.
proof fn lemma_filter_all_pass(xs: Seq<TodoView>, pred: spec_fn(TodoView) -> bool)
    requires
        forall|k: int| 0 <= k < xs.len() ==> pred(#[trigger] xs[k]),
    ensures
        xs.filter(pred) == xs,
    decreases xs.len(),
{
    reveal(Seq::filter);
    if xs.len() > 0 {
        lemma_filter_all_pass(xs.drop_last(), pred);
        assert(xs.drop_last().push(xs.last()) =~= xs);
    }
}

/// Confirming the deletion of a todo removes exactly the selected todo (the
/// one whose identifier `selected_todo_id` gives): the todos left are the
/// old ones without it, in their order, and the change is saved.
#[verifier::rlimit(40)]
pub proof fn law_delete_removes_the_selected_todo(s: AppView, f: Fresh, id: u128)
    requires
        s.mode is ConfirmDeleteTodo,
        s.selected_todo_id() == Some(id),
        todo_ids_unique(s.todos),
    ensures
        step(s, Action::Submit, f).1 == AppCommand::Save,
        step(s, Action::Submit, f).0.todos == s.todos.filter(|t: TodoView| t.id != id),
        step(s, Action::Submit, f).0.todos.len() + 1 == s.todos.len(),
        forall|k: int|
            0 <= k < step(s, Action::Submit, f).0.todos.len() ==> (#[trigger] step(
                s,
                Action::Submit,
                f,
            ).0.todos[k]).id != id,
{
    crate::app::lemma_selected_todo_in_range(s);
    let i = s.selected_todo()->0 as int;
    let pred = |t: TodoView| t.id != id;
    let before = s.todos.take(i);
    let after = s.todos.skip(i + 1);
    assert(s.todos =~= before + seq![s.todos[i]] + after);
    assert forall|k: int| 0 <= k < before.len() implies pred(#[trigger] before[k]) by {
        assert(s.todos[k].id != s.todos[i].id);
    }
    assert forall|k: int| 0 <= k < after.len() implies pred(#[trigger] after[k]) by {
        assert(s.todos[i].id != s.todos[i + 1 + k].id);
    }
    lemma_filter_all_pass(before, pred);
    lemma_filter_all_pass(after, pred);
    Seq::filter_distributes_over_add(before + seq![s.todos[i]], after, pred);
    Seq::filter_distributes_over_add(before, seq![s.todos[i]], pred);
    assert(!pred(s.todos[i]));
    lemma_filter_single_dropped(s.todos[i], pred);
    assert(s.todos.filter(pred) =~= before + after);
    assert(s.todos.remove(i) =~= before + after);
}


/// A press of `code` without regard to modifiers.
pub open spec fn pressed(e: KeyEvent, code: KeyCode) -> bool {
    e.kind == KeyEventKind::Press && e.code == code
}

/// The keybindings of the lists, key by key: each action comes from exactly
/// its keys (`k`/Up moves up, `j`/Down moves down, `h`/Left and `l`/Right
/// focus the panels, `a` adds, `e` edits, `d` deletes, `x`/Enter toggles,
/// `f` cycles the filter, `.` toggles help, `q` quits); no other action comes
/// from a key there, and releases and repeats do nothing.
pub proof fn law_list_keybindings(e: KeyEvent)
    ensures
        key_action(Mode::Normal, e) == Action::MoveUp <==> (pressed(e, KeyCode::Char('k'))
            || pressed(e, KeyCode::Up)),
        key_action(Mode::Normal, e) == Action::MoveDown <==> (pressed(e, KeyCode::Char('j'))
            || pressed(e, KeyCode::Down)),
        key_action(Mode::Normal, e) == Action::FocusLeft <==> (pressed(e, KeyCode::Char('h'))
            || pressed(e, KeyCode::Left)),
        key_action(Mode::Normal, e) == Action::FocusRight <==> (pressed(e, KeyCode::Char('l'))
            || pressed(e, KeyCode::Right)),
        key_action(Mode::Normal, e) == Action::StartAdd <==> pressed(e, KeyCode::Char('a')),
        key_action(Mode::Normal, e) == Action::StartEdit <==> pressed(e, KeyCode::Char('e')),
        key_action(Mode::Normal, e) == Action::StartDeleteConfirm <==> pressed(
            e,
            KeyCode::Char('d'),
        ),
        key_action(Mode::Normal, e) == Action::ToggleSelected <==> (pressed(
            e,
            KeyCode::Char('x'),
        ) || pressed(e, KeyCode::Enter)),
        key_action(Mode::Normal, e) == Action::CycleFilter <==> pressed(e, KeyCode::Char('f')),
        key_action(Mode::Normal, e) == Action::ToggleHelp <==> pressed(e, KeyCode::Char('.')),
        key_action(Mode::Normal, e) == Action::Quit <==> pressed(e, KeyCode::Char('q')),
        e.kind != KeyEventKind::Press ==> key_action(Mode::Normal, e) == Action::NoOp,
        ({
            let a = key_action(Mode::Normal, e);
            a is MoveUp || a is MoveDown || a is FocusLeft || a is FocusRight || a is StartAdd
                || a is StartEdit || a is StartDeleteConfirm || a is ToggleSelected
                || a is CycleFilter || a is ToggleHelp || a is Quit || a is NoOp
        }),
{
}

/// The keybindings of the dialogs: in a text dialog Enter submits, Esc
/// cancels, Backspace deletes, and a character pressed without Control is
/// typed; in a confirmation Enter confirms and Esc cancels; no other action
/// comes from a key in a dialog.
pub proof fn law_dialog_keybindings(m: Mode, e: KeyEvent, c: char)
    requires
        !(m is Normal),
    ensures
        key_action(m, e) == Action::Submit <==> pressed(e, KeyCode::Enter),
        key_action(m, e) == Action::Cancel <==> pressed(e, KeyCode::Esc),
        m.is_text_input() ==> (key_action(m, e) == Action::Backspace <==> pressed(
            e,
            KeyCode::Backspace,
        )),
        m.is_text_input() ==> (key_action(m, e) == Action::InputChar(c) <==> (pressed(
            e,
            KeyCode::Char(c),
        ) && !e.control)),
        m.is_confirm_delete() ==> (key_action(m, e) == Action::NoOp <==> !(pressed(
            e,
            KeyCode::Enter,
        ) || pressed(e, KeyCode::Esc))),
        ({
            let a = key_action(m, e);
            a is Submit || a is Cancel || a is NoOp || (m.is_text_input() && (a is Backspace
                || a is InputChar))
        }),
{
}

} // verus!
