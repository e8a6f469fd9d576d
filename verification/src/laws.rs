//! Properties of the app that hold across steps, proved from the step function.
use vstd::prelude::*;

use crate::app::{
    confirm_step, count_completed_in_group, count_in_group, first_index, group_ids,
    normal_step, shown, shown_positions, step, step_fits, text_step, AppCommand, AppView, Action,
    PanelFocus,
};
use crate::fresh::Fresh;
use crate::models::{Filter, GroupView, Mode, TodoView};
use crate::text::trimmed;

verus! {

/// Cycling the filter three times brings it back.
pub proof fn law_filter_cycle_returns(f: Filter)
    ensures
        f.spec_next().spec_next().spec_next() == f,
{
}

/// A group's completed count never exceeds its todo count.
pub proof fn law_progress_bounded(todos: Seq<TodoView>, gid: u128, n: int)
    ensures
        count_completed_in_group(todos, gid, n) <= count_in_group(todos, gid, n),
    decreases n,
{
    if n > 0 {
        law_progress_bounded(todos, gid, n - 1);
    }
}

/// The todo list shows exactly the todos of the selected group that pass the
/// filter, each once, in the order of the todo list: every listed position
/// holds such a todo, the positions increase, and every such todo is listed.
pub proof fn law_listed_todos_are_the_shown_ones(todos: Seq<TodoView>, gid: u128, f: Filter)
    requires
        todos.len() <= usize::MAX,
    ensures
        forall|k: int|
            0 <= k < shown_positions(todos, gid, f, todos.len() as int).len() ==> {
                let i = #[trigger] shown_positions(todos, gid, f, todos.len() as int)[k];
                i < todos.len() && shown(todos[i as int], gid, f)
            },
        forall|k: int, l: int|
            0 <= k < l < shown_positions(todos, gid, f, todos.len() as int).len() ==> #[trigger] shown_positions(
                todos,
                gid,
                f,
                todos.len() as int,
            )[k] < #[trigger] shown_positions(todos, gid, f, todos.len() as int)[l],
        forall|i: int|
            0 <= i < todos.len() && shown(todos[i], gid, f) ==> #[trigger] shown_positions(
                todos,
                gid,
                f,
                todos.len() as int,
            ).contains(i as usize),
{
    lemma_shown_positions(todos, gid, f, todos.len() as int);
}

proof fn lemma_shown_positions(todos: Seq<TodoView>, gid: u128, f: Filter, n: int)
    requires
        n <= todos.len() <= usize::MAX,
    ensures
        forall|k: int|
            0 <= k < shown_positions(todos, gid, f, n).len() ==> {
                let i = #[trigger] shown_positions(todos, gid, f, n)[k];
                i < n && shown(todos[i as int], gid, f)
            },
        forall|k: int, l: int|
            0 <= k < l < shown_positions(todos, gid, f, n).len() ==> #[trigger] shown_positions(
                todos,
                gid,
                f,
                n,
            )[k] < #[trigger] shown_positions(todos, gid, f, n)[l],
        forall|i: int|
            0 <= i < n && shown(todos[i], gid, f) ==> #[trigger] shown_positions(
                todos,
                gid,
                f,
                n,
            ).contains(i as usize),
    decreases n,
{
    if n > 0 {
        lemma_shown_positions(todos, gid, f, n - 1);
        let p = shown_positions(todos, gid, f, n - 1);
        let q = shown_positions(todos, gid, f, n);
        if shown(todos[n - 1], gid, f) {
            assert(q == p.push((n - 1) as usize));
            assert forall|k: int| 0 <= k < q.len() implies {
                let i = #[trigger] q[k];
                i < n && shown(todos[i as int], gid, f)
            } by {
                if k < p.len() {
                    assert(q[k] == p[k]);
                } else {
                    assert(q[k] == (n - 1) as usize);
                }
            }
            assert forall|k: int, l: int| 0 <= k < l < q.len() implies #[trigger] q[k]
                < #[trigger] q[l] by {
                assert(q[k] == p[k]);
                assert(p[k] < n - 1);
                if l < p.len() {
                    assert(q[l] == p[l]);
                } else {
                    assert(q[l] == (n - 1) as usize);
                }
            }
        } else {
            assert(q == p);
        }
        assert forall|i: int| 0 <= i < n && shown(todos[i], gid, f) implies #[trigger] q.contains(
            i as usize,
        ) by {
            if i == n - 1 {
                assert(q[q.len() - 1] == i as usize);
            } else {
                assert(p.contains(i as usize));
                let k = choose|k: int| 0 <= k < p.len() && p[k] == i as usize;
                assert(q[k] == i as usize);
            }
        }
    }
}

/// What every step promises, whatever the state and action:
/// - a step that changes the groups or todos asks the loop to save, and a
///   save always leaves the lists (no dialog stays open);
/// - the loop is asked to quit exactly for Quit in the lists, and then
///   nothing changes;
/// - only the three Start actions open a dialog, and a dialog only stays as
///   it is or closes;
/// - the group list is never emptied;
/// - a cursor within the dialog's text stays within it.
pub open spec fn keeps_promises(s: AppView, a: Action, t: AppView, cmd: AppCommand) -> bool {
    &&& (t.groups != s.groups || t.todos != s.todos) ==> cmd == AppCommand::Save
    &&& cmd == AppCommand::Save ==> t.mode is Normal
    &&& (cmd == AppCommand::Quit <==> (s.mode is Normal && a is Quit))
    &&& cmd == AppCommand::Quit ==> t == s
    &&& (s.mode is Normal && !(t.mode is Normal)) ==> (a is StartAdd || a is StartEdit
        || a is StartDeleteConfirm)
    &&& !(s.mode is Normal) ==> (t.mode == s.mode || t.mode is Normal)
    &&& s.groups.len() >= 1 ==> t.groups.len() >= 1
    &&& s.cursor <= s.input.len() ==> t.cursor <= t.input.len()
}

/// Every step keeps the promises of [`keeps_promises`].
#[verifier::rlimit(40)]
pub proof fn law_step_keeps_promises(s: AppView, a: Action, f: Fresh)
    requires
        step_fits(s, a),
    ensures
        keeps_promises(s, a, step(s, a, f).0, step(s, a, f).1),
{
    if s.mode is Normal {
        assert(step(s, a, f) == normal_step(s, a, f));
        match a {
            Action::MoveUp => {},
            Action::MoveDown => {},
            Action::StartAdd => {},
            Action::StartEdit => {},
            Action::StartDeleteConfirm => {},
            Action::CycleFilter => {},
            Action::ToggleSelected => {},
            _ => {},
        }
    } else if s.mode.is_text_input() {
        assert(step(s, a, f) == text_step(s, a, f));
        match a {
            Action::Submit => {
                if trimmed(s.input).len() != 0 {
                    match s.mode {
                        Mode::AddingGroup => {},
                        Mode::EditingGroup => {},
                        Mode::AddingTodo => {},
                        Mode::EditingTodo => {},
                        _ => {},
                    }
                }
            },
            _ => {},
        }
    } else {
        assert(step(s, a, f) == confirm_step(s, a));
        match a {
            Action::Submit => {
                match s.mode {
                    Mode::ConfirmDeleteGroup => {},
                    Mode::ConfirmDeleteTodo => {},
                    _ => {},
                }
            },
            _ => {},
        }
    }
}

/// No change to the groups or todos goes unsaved: a step that changes
/// either list asks the loop to save.
pub proof fn law_changes_are_saved(s: AppView, a: Action, f: Fresh)
    requires
        step_fits(s, a),
    ensures
        (step(s, a, f).0.groups != s.groups || step(s, a, f).0.todos != s.todos)
            ==> step(s, a, f).1 == AppCommand::Save,
{
    law_step_keeps_promises(s, a, f);
}

/// Quitting from the lists changes nothing and asks the loop to quit; no
/// other step asks to quit.
pub proof fn law_quit_leaves_state(s: AppView, a: Action, f: Fresh)
    requires
        step_fits(s, a),
    ensures
        step(s, a, f).1 == AppCommand::Quit <==> (s.mode is Normal && a is Quit),
        step(s, a, f).1 == AppCommand::Quit ==> step(s, a, f).0 == s,
{
    law_step_keeps_promises(s, a, f);
}

/// The group list never becomes empty: deleting the last group is refused.
pub proof fn law_groups_never_emptied(s: AppView, a: Action, f: Fresh)
    requires
        s.groups.len() >= 1,
        step_fits(s, a),
    ensures
        step(s, a, f).0.groups.len() >= 1,
{
    law_step_keeps_promises(s, a, f);
}

/// The cursor of a dialog never leaves its text: if it stands within the
/// text before a step, it does after it.
pub proof fn law_cursor_stays_in_text(s: AppView, a: Action, f: Fresh)
    requires
        s.cursor <= s.input.len(),
        step_fits(s, a),
    ensures
        step(s, a, f).0.cursor <= step(s, a, f).0.input.len(),
{
    law_step_keeps_promises(s, a, f);
}

/// Dialogs open only through the Start actions, close only to the lists,
/// and every save leaves the lists.
pub proof fn law_modes_change_as_dialogs(s: AppView, a: Action, f: Fresh)
    requires
        step_fits(s, a),
    ensures
        (s.mode is Normal && !(step(s, a, f).0.mode is Normal)) ==> (a is StartAdd
            || a is StartEdit || a is StartDeleteConfirm),
        !(s.mode is Normal) ==> (step(s, a, f).0.mode == s.mode || step(s, a, f).0.mode is Normal),
        step(s, a, f).1 == AppCommand::Save ==> step(s, a, f).0.mode is Normal,
{
    law_step_keeps_promises(s, a, f);
}

/// Typing a character and then deleting it with backspace restores the
/// dialog exactly, when the cursor stood within the text.
pub proof fn law_type_then_backspace(s: AppView, c: char, f: Fresh, g: Fresh)
    requires
        s.mode.is_text_input(),
        s.cursor <= s.input.len(),
        s.cursor < usize::MAX,
    ensures
        step(step(s, Action::InputChar(c), f).0, Action::Backspace, g).0 == s,
{
    let s1 = step(s, Action::InputChar(c), f).0;
    assert(s1.input == s.input.insert(s.cursor as int, c));
    assert(s1.input.remove(s.cursor as int) =~= s.input);
    assert(step(s1, Action::Backspace, g).0 =~= s);
}

/// Both selections point into their lists: the group selection at a group
/// (when there is one), the todo selection at a listed todo, or at 0 when
/// none is listed.
pub open spec fn selection_in_range(s: AppView) -> bool {
    &&& s.groups.len() > 0 ==> s.sel_group < s.groups.len()
    &&& s.visible().len() == 0 ==> s.sel_todo == 0
    &&& s.visible().len() > 0 ==> s.sel_todo < s.visible().len()
}

/// What the first index of an identifier is, when there is one.
pub proof fn lemma_first_index(ids: Seq<u128>, id: u128)
    ensures
        match first_index(ids, id) {
            Some(p) => 0 <= p < ids.len() && ids[p] == id && forall|q: int|
                0 <= q < p ==> ids[q] != id,
            None => !ids.contains(id),
        },
{
    if ids.contains(id) {
        let j = choose|j: int| 0 <= j < ids.len() && ids[j] == id;
        lemma_first_occurrence_exists(ids, id, j);
    }
}

proof fn lemma_first_occurrence_exists(ids: Seq<u128>, id: u128, j: int)
    requires
        0 <= j < ids.len(),
        ids[j] == id,
    ensures
        exists|p: int|
            0 <= p < ids.len() && ids[p] == id && forall|q: int| 0 <= q < p ==> ids[q] != id,
    decreases j,
{
    if exists|q: int| 0 <= q < j && ids[q] == id {
        let q = choose|q: int| 0 <= q < j && ids[q] == id;
        lemma_first_occurrence_exists(ids, id, q);
    } else {
        assert(0 <= j < ids.len() && ids[j] == id && forall|q: int| 0 <= q < j ==> ids[q] != id);
    }
}

/// Re-selecting a todo puts the todo selection in range.
proof fn lemma_todo_reselect_in_range(s: AppView, id: Option<u128>)
    requires
        s.groups.len() > 0 ==> s.sel_group < s.groups.len(),
    ensures
        selection_in_range(s.with_todo_selected(id)),
{
    let t = s.with_todo_selected(id);
    assert(t.visible() == s.visible());
    if let Some(x) = id {
        lemma_first_index(s.visible_ids(), x);
    }
}

/// Re-selecting the group puts the group selection in range.
proof fn lemma_group_reselect_in_range(s: AppView, id: Option<u128>)
    ensures
        s.with_group_selected(id).groups.len() > 0 ==> s.with_group_selected(id).sel_group
            < s.with_group_selected(id).groups.len(),
{
    if let Some(x) = id {
        lemma_first_index(group_ids(s.groups), x);
    }
}

/// Changing fields of a todo other than its group and completion leaves the
/// listed positions as they were.
proof fn lemma_shown_positions_update(
    todos: Seq<TodoView>,
    i: int,
    t: TodoView,
    gid: u128,
    f: Filter,
    n: int,
)
    requires
        0 <= i < todos.len(),
        t.group_id == todos[i].group_id,
        t.completed == todos[i].completed,
        n <= todos.len(),
    ensures
        shown_positions(todos.update(i, t), gid, f, n) == shown_positions(todos, gid, f, n),
    decreases n,
{
    if n > 0 {
        lemma_shown_positions_update(todos, i, t, gid, f, n - 1);
    }
}

/// The selections stay in range at every step.
pub proof fn law_selection_stays_in_range(s: AppView, a: Action, f: Fresh)
    requires
        selection_in_range(s),
    ensures
        selection_in_range(step(s, a, f).0),
{
    if s.mode is Normal {
        lemma_normal_selection(s, a, f);
    } else if s.mode.is_text_input() {
        lemma_text_selection(s, a, f);
    } else {
        lemma_confirm_selection(s, a);
    }
}

#[verifier::rlimit(40)]
proof fn lemma_normal_selection(s: AppView, a: Action, f: Fresh)
    requires
        selection_in_range(s),
    ensures
        selection_in_range(normal_step(s, a, f).0),
{
    match a {
        Action::MoveUp => {
            if s.focus == PanelFocus::Groups && s.sel_group > 0 {
                lemma_todo_reselect_in_range(
                    AppView { sel_group: (s.sel_group - 1) as usize, ..s },
                    None,
                );
            }
        },
        Action::MoveDown => {
            if s.focus == PanelFocus::Groups && s.groups.len() > 0 {
                lemma_todo_reselect_in_range(
                    AppView {
                        sel_group: crate::app::min_usize(
                            (s.sel_group + 1) as usize,
                            (s.groups.len() - 1) as usize,
                        ),
                        ..s
                    },
                    None,
                );
            }
        },
        Action::CycleFilter => {
            if s.focus == PanelFocus::Todos {
                lemma_todo_reselect_in_range(
                    AppView { filter: s.filter.spec_next(), ..s },
                    s.selected_todo_id(),
                );
            }
        },
        Action::ToggleSelected => {
            if s.focus == PanelFocus::Todos && s.selected_todo() is Some {
                let i = s.selected_todo()->0;
                let t = s.todos[i as int];
                let done = !t.completed;
                let t2 = TodoView {
                    completed: done,
                    completed_at: if done { Some(f.now.spec_date()) } else { None },
                    ..t
                };
                lemma_todo_reselect_in_range(
                    AppView { todos: s.todos.update(i as int, t2), status: None, ..s },
                    Some(t.id),
                );
            }
        },
        _ => {},
    }
}

#[verifier::rlimit(40)]
proof fn lemma_text_selection(s: AppView, a: Action, f: Fresh)
    requires
        selection_in_range(s),
        s.mode.is_text_input(),
    ensures
        selection_in_range(text_step(s, a, f).0),
{
    match a {
        Action::Submit => {
            let value = trimmed(s.input);
            if value.len() != 0 {
                match s.mode {
                    Mode::AddingGroup => {
                        let g = GroupView { id: f.id, name: value, created_at: f.now };
                        let s1 = AppView {
                            groups: s.groups.insert(0, g),
                            status: None,
                            ..s.dialog_closed()
                        };
                        lemma_group_reselect_in_range(s1, Some(f.id));
                        lemma_todo_reselect_in_range(s1.with_group_selected(Some(f.id)), None);
                    },
                    Mode::AddingTodo => {
                        if let Some(gid) = s.selected_group_id() {
                            let t = TodoView {
                                id: f.id,
                                group_id: gid,
                                title: value,
                                completed: false,
                                created_at: f.now,
                                completed_at: None,
                            };
                            lemma_todo_reselect_in_range(
                                AppView {
                                    todos: s.todos.insert(0, t),
                                    status: None,
                                    ..s.dialog_closed()
                                },
                                Some(f.id),
                            );
                        }
                    },
                    Mode::EditingTodo => {
                        if let Some(i) = s.selected_todo() {
                            crate::app::lemma_selected_todo_in_range(s);
                            let t = s.todos[i as int];
                            let gid = s.selected_group_id()->0;
                            lemma_shown_positions_update(
                                s.todos,
                                i as int,
                                TodoView { title: value, ..t },
                                gid,
                                s.filter,
                                s.todos.len() as int,
                            );
                        }
                    },
                    _ => {},
                }
            }
        },
        _ => {},
    }
}

#[verifier::rlimit(40)]
proof fn lemma_confirm_selection(s: AppView, a: Action)
    requires
        selection_in_range(s),
    ensures
        selection_in_range(confirm_step(s, a).0),
{
    match a {
        Action::Submit => {
            match s.mode {
                Mode::ConfirmDeleteGroup => {
                    if s.groups.len() > 1 && s.sel_group < s.groups.len() {
                        let gid = s.groups[s.sel_group as int].id;
                        let s1 = AppView {
                            groups: s.groups.remove(s.sel_group as int),
                            todos: s.todos.filter(|t: TodoView| t.group_id != gid),
                            status: None,
                            ..s.dialog_closed()
                        };
                        lemma_group_reselect_in_range(s1, s1.selected_group_id());
                        let s2 = s1.with_group_selected(s1.selected_group_id());
                        lemma_todo_reselect_in_range(s2, s2.selected_todo_id());
                    }
                },
                Mode::ConfirmDeleteTodo => {
                    if let Some(i) = s.selected_todo() {
                        lemma_todo_reselect_in_range(
                            AppView {
                                todos: s.todos.remove(i as int),
                                status: None,
                                ..s.dialog_closed()
                            },
                            None,
                        );
                    }
                },
                _ => {},
            }
        },
        _ => {},
    }
}

/// Every todo belongs to a group in the group list.
pub open spec fn todos_in_groups(s: AppView) -> bool {
    forall|i: int|
        0 <= i < s.todos.len() ==> group_ids(s.groups).contains(#[trigger] s.todos[i].group_id)
}

/// What a filter keeps comes from the sequence and passes the filter.
pub proof fn lemma_filter_kept(xs: Seq<TodoView>, pred: spec_fn(TodoView) -> bool)
    ensures
        forall|k: int|
            0 <= k < xs.filter(pred).len() ==> xs.contains(#[trigger] xs.filter(pred)[k]) && pred(
                xs.filter(pred)[k],
            ),
    decreases xs.len(),
{
    reveal(Seq::filter);
    if xs.len() > 0 {
        lemma_filter_kept(xs.drop_last(), pred);
        let sub = xs.drop_last().filter(pred);
        let out = xs.filter(pred);
        assert forall|k: int| 0 <= k < out.len() implies xs.contains(#[trigger] out[k]) && pred(
            out[k],
        ) by {
            if k < sub.len() {
                assert(out[k] == sub[k]);
                assert(xs.drop_last().contains(sub[k]));
                let m = choose|m: int| 0 <= m < xs.drop_last().len() && xs.drop_last()[m] == sub[k];
                assert(xs[m] == out[k]);
            } else {
                assert(out[k] == xs.last());
                assert(xs[xs.len() - 1] == out[k]);
            }
        }
    }
}

/// Every todo keeps belonging to a group in the group list: adding a todo
/// puts it in the selected group, and deleting a group deletes its todos.
pub proof fn law_todos_stay_in_groups(s: AppView, a: Action, f: Fresh)
    requires
        todos_in_groups(s),
    ensures
        todos_in_groups(step(s, a, f).0),
{
    if s.mode is Normal {
        lemma_normal_membership(s, a, f);
    } else if s.mode.is_text_input() {
        lemma_text_membership(s, a, f);
    } else {
        lemma_confirm_membership(s, a);
    }
}

proof fn lemma_normal_membership(s: AppView, a: Action, f: Fresh)
    requires
        todos_in_groups(s),
    ensures
        todos_in_groups(normal_step(s, a, f).0),
{
    match a {
        Action::ToggleSelected => {
            if s.focus == PanelFocus::Todos && s.selected_todo() is Some {
                crate::app::lemma_selected_todo_in_range(s);
                let s2 = normal_step(s, a, f).0;
                assert forall|k: int| 0 <= k < s2.todos.len() implies group_ids(s2.groups).contains(
                    #[trigger] s2.todos[k].group_id,
                ) by {
                    assert(s2.todos[k].group_id == s.todos[k].group_id);
                }
            }
        },
        _ => {},
    }
}

#[verifier::rlimit(40)]
proof fn lemma_text_membership(s: AppView, a: Action, f: Fresh)
    requires
        todos_in_groups(s),
        s.mode.is_text_input(),
    ensures
        todos_in_groups(text_step(s, a, f).0),
{
    match a {
        Action::Submit => {
            let value = trimmed(s.input);
            if value.len() != 0 {
                let s2 = text_step(s, a, f).0;
                match s.mode {
                    Mode::AddingGroup => {
                        assert forall|k: int| 0 <= k < s2.todos.len() implies group_ids(
                            s2.groups,
                        ).contains(#[trigger] s2.todos[k].group_id) by {
                            let x = s.todos[k].group_id;
                            assert(group_ids(s.groups).contains(x));
                            let m = choose|m: int| 0 <= m < group_ids(s.groups).len() && group_ids(s.groups)[m] == x;
                            assert(group_ids(s2.groups)[m + 1] == x);
                        }
                    },
                    Mode::EditingGroup => {
                        assert(group_ids(s2.groups) =~= group_ids(s.groups));
                    },
                    Mode::AddingTodo => {
                        if let Some(gid) = s.selected_group_id() {
                            assert(group_ids(s.groups)[s.sel_group as int] == gid);
                            assert forall|k: int| 0 <= k < s2.todos.len() implies group_ids(
                                s2.groups,
                            ).contains(#[trigger] s2.todos[k].group_id) by {
                                if k > 0 {
                                    assert(s2.todos[k] == s.todos[k - 1]);
                                }
                            }
                        }
                    },
                    Mode::EditingTodo => {
                        if s.selected_todo() is Some {
                            crate::app::lemma_selected_todo_in_range(s);
                            assert forall|k: int| 0 <= k < s2.todos.len() implies group_ids(
                                s2.groups,
                            ).contains(#[trigger] s2.todos[k].group_id) by {
                                assert(s2.todos[k].group_id == s.todos[k].group_id);
                            }
                        }
                    },
                    _ => {},
                }
            }
        },
        _ => {},
    }
}

#[verifier::rlimit(40)]
proof fn lemma_confirm_membership(s: AppView, a: Action)
    requires
        todos_in_groups(s),
    ensures
        todos_in_groups(confirm_step(s, a).0),
{
    match a {
        Action::Submit => {
            match s.mode {
                Mode::ConfirmDeleteGroup => {
                    if s.groups.len() > 1 && s.sel_group < s.groups.len() {
                        let sel = s.sel_group as int;
                        let gid = s.groups[sel].id;
                        let pred = |t: TodoView| t.group_id != gid;
                        let kept = s.todos.filter(pred);
                        let groups2 = s.groups.remove(sel);
                        lemma_filter_kept(s.todos, pred);
                        assert forall|k: int| 0 <= k < kept.len() implies group_ids(
                            groups2,
                        ).contains(#[trigger] kept[k].group_id) by {
                            assert(s.todos.contains(kept[k]));
                            let i = choose|i: int| 0 <= i < s.todos.len() && s.todos[i] == kept[k];
                            let x = s.todos[i].group_id;
                            assert(group_ids(s.groups).contains(x));
                            let m = choose|m: int| 0 <= m < group_ids(s.groups).len() && group_ids(s.groups)[m] == x;
                            assert(m != sel);
                            if m < sel {
                                assert(group_ids(groups2)[m] == x);
                            } else {
                                assert(group_ids(groups2)[m - 1] == x);
                            }
                        }
                        let s2 = confirm_step(s, a).0;
                        assert(s2.todos == kept);
                        assert(s2.groups == groups2);
                    }
                },
                Mode::ConfirmDeleteTodo => {
                    if let Some(i) = s.selected_todo() {
                        crate::app::lemma_selected_todo_in_range(s);
                        let s2 = confirm_step(s, a).0;
                        assert forall|k: int| 0 <= k < s2.todos.len() implies group_ids(
                            s2.groups,
                        ).contains(#[trigger] s2.todos[k].group_id) by {
                            if k < i {
                                assert(s2.todos[k] == s.todos[k]);
                            } else {
                                assert(s2.todos[k] == s.todos[k + 1]);
                            }
                        }
                    }
                },
                _ => {},
            }
        },
        _ => {},
    }
}

/// Cancelling a text dialog closes it, discards its text, and leaves the
/// groups and todos as they were.
pub proof fn law_cancel_discards_dialog(s: AppView, f: Fresh)
    requires
        s.mode.is_text_input(),
    ensures
        step(s, Action::Cancel, f).0.mode is Normal,
        step(s, Action::Cancel, f).0.input.len() == 0,
        step(s, Action::Cancel, f).0.cursor == 0,
        step(s, Action::Cancel, f).0.groups == s.groups,
        step(s, Action::Cancel, f).0.todos == s.todos,
        step(s, Action::Cancel, f).1 == AppCommand::Nothing,
{
}

/// A group that is added goes to the top of the list and is selected.
#[verifier::rlimit(40)]
pub proof fn law_new_group_is_selected(s: AppView, f: Fresh)
    requires
        s.mode is AddingGroup,
        trimmed(s.input).len() > 0,
    ensures
        step(s, Action::Submit, f).0.groups[0].id == f.id,
        step(s, Action::Submit, f).0.groups[0].name == trimmed(s.input),
        step(s, Action::Submit, f).0.sel_group == 0,
        step(s, Action::Submit, f).0.selected_group_id() == Some(f.id),
{
    let g = GroupView { id: f.id, name: trimmed(s.input), created_at: f.now };
    let s1 = AppView { groups: s.groups.insert(0, g), status: None, ..s.dialog_closed() };
    crate::app::lemma_first_index_is(group_ids(s1.groups), f.id, 0);
}

/// A todo that is added goes to the top of the list, into the selected
/// group, and is selected, unless the done filter hides it.
pub proof fn law_new_todo_is_selected(s: AppView, f: Fresh)
    requires
        s.mode is AddingTodo,
        trimmed(s.input).len() > 0,
        s.sel_group < s.groups.len(),
        s.filter != Filter::Done,
        s.todos.len() < usize::MAX,
    ensures
        step(s, Action::Submit, f).0.todos[0].id == f.id,
        step(s, Action::Submit, f).0.todos[0].group_id == s.groups[s.sel_group as int].id,
        step(s, Action::Submit, f).0.todos[0].title == trimmed(s.input),
        step(s, Action::Submit, f).0.selected_todo_id() == Some(f.id),
{
    let gid = s.groups[s.sel_group as int].id;
    let t = TodoView {
        id: f.id,
        group_id: gid,
        title: trimmed(s.input),
        completed: false,
        created_at: f.now,
        completed_at: None,
    };
    let s1 = AppView { todos: s.todos.insert(0, t), status: None, ..s.dialog_closed() };
    lemma_shown_positions(s1.todos, gid, s1.filter, s1.todos.len() as int);
    let v = s1.visible();
    assert(s1.selected_group_id() == Some(gid));
    assert(v == shown_positions(s1.todos, gid, s1.filter, s1.todos.len() as int));
    assert(s1.todos[0] == t);
    assert(shown(s1.todos[0], gid, s1.filter));
    assert(v.contains(0int as usize));
    let k = choose|k: int| 0 <= k < v.len() && v[k] == 0usize;
    if k > 0 {
        assert(v[0] < v[k]);
    }
    assert(v[0] == 0usize);
    crate::app::lemma_first_index_is(s1.visible_ids(), f.id, 0);
}

/// Deleting a group deletes exactly its todos: none of the todos left
/// belongs to it, and the others stay, in their order.
pub proof fn law_delete_group_removes_its_todos(s: AppView, f: Fresh)
    requires
        s.mode is ConfirmDeleteGroup,
        s.groups.len() > 1,
        s.sel_group < s.groups.len(),
    ensures
        ({
            let gid = s.groups[s.sel_group as int].id;
            let after = step(s, Action::Submit, f).0;
            &&& after.todos == s.todos.filter(|t: TodoView| t.group_id != gid)
            &&& forall|k: int| 0 <= k < after.todos.len() ==> (#[trigger] after.todos[k]).group_id != gid
            &&& after.groups == s.groups.remove(s.sel_group as int)
        }),
{
    let gid = s.groups[s.sel_group as int].id;
    lemma_filter_kept(s.todos, |t: TodoView| t.group_id != gid);
}

/// Only marking a todo done and submitting a text dialog read the fresh
/// identifier and time: every other step is the same whatever they are.
pub proof fn law_fresh_values_used_only_where_needed(s: AppView, a: Action, f: Fresh, g: Fresh)
    requires
        !crate::app::uses_fresh(s, a),
    ensures
        step(s, a, f) == step(s, a, g),
{
    if s.mode is Normal {
        match a {
            Action::ToggleSelected => {},
            _ => {},
        }
    } else if s.mode.is_text_input() {
        match a {
            Action::Submit => {},
            _ => {},
        }
    }
}

/// The state's invariant: there is a group, both selections are in range,
/// every todo belongs to a group, and the cursor stands within the text.
pub open spec fn app_invariant(s: AppView) -> bool {
    &&& s.groups.len() >= 1
    &&& selection_in_range(s)
    &&& todos_in_groups(s)
    &&& s.cursor <= s.input.len()
}

/// Every step keeps the invariant.
pub proof fn law_invariant_kept(s: AppView, a: Action, f: Fresh)
    requires
        app_invariant(s),
        step_fits(s, a),
    ensures
        app_invariant(step(s, a, f).0),
{
    law_step_keeps_promises(s, a, f);
    law_selection_stays_in_range(s, a, f);
    law_todos_stay_in_groups(s, a, f);
}

/// The listed positions under the filter `All` are exactly those under
/// `Open` together with those under `Done`, and no position is listed under
/// both; all three lists run in increasing order
/// ([`law_listed_todos_are_the_shown_ones`]).
pub proof fn law_all_is_open_and_done(todos: Seq<TodoView>, gid: u128)
    requires
        todos.len() <= usize::MAX,
    ensures
        forall|i: usize|
            #![trigger shown_positions(todos, gid, Filter::All, todos.len() as int).contains(i)]
            shown_positions(todos, gid, Filter::All, todos.len() as int).contains(i) <==> (
            shown_positions(todos, gid, Filter::Open, todos.len() as int).contains(i)
                || shown_positions(todos, gid, Filter::Done, todos.len() as int).contains(i)),
        forall|i: usize|
            #![trigger shown_positions(todos, gid, Filter::Open, todos.len() as int).contains(i)]
            !(shown_positions(todos, gid, Filter::Open, todos.len() as int).contains(i)
                && shown_positions(todos, gid, Filter::Done, todos.len() as int).contains(i)),
{
    let n = todos.len() as int;
    lemma_shown_positions(todos, gid, Filter::All, n);
    lemma_shown_positions(todos, gid, Filter::Open, n);
    lemma_shown_positions(todos, gid, Filter::Done, n);
    let all = shown_positions(todos, gid, Filter::All, n);
    let open = shown_positions(todos, gid, Filter::Open, n);
    let done = shown_positions(todos, gid, Filter::Done, n);
    assert forall|i: usize| all.contains(i) <==> (open.contains(i) || done.contains(i)) by {
        if all.contains(i) {
            let k = choose|k: int| 0 <= k < all.len() && all[k] == i;
            assert(shown(todos[all[k] as int], gid, Filter::All));
            assert(shown(todos[i as int], gid, Filter::Open) || shown(todos[i as int], gid, Filter::Done));
        }
        if open.contains(i) {
            let k = choose|k: int| 0 <= k < open.len() && open[k] == i;
            assert(shown(todos[open[k] as int], gid, Filter::Open));
            assert(shown(todos[i as int], gid, Filter::All));
            assert(all.contains((i as int) as usize));
        }
        if done.contains(i) {
            let k = choose|k: int| 0 <= k < done.len() && done[k] == i;
            assert(shown(todos[done[k] as int], gid, Filter::Done));
            assert(shown(todos[i as int], gid, Filter::All));
            assert(all.contains((i as int) as usize));
        }
        if all.contains(i) {
            if shown(todos[i as int], gid, Filter::Open) {
                assert(open.contains((i as int) as usize));
            } else {
                assert(done.contains((i as int) as usize));
            }
        }
    }
    assert forall|i: usize| !(open.contains(i) && done.contains(i)) by {
        if open.contains(i) && done.contains(i) {
            let k = choose|k: int| 0 <= k < open.len() && open[k] == i;
            let l = choose|l: int| 0 <= l < done.len() && done[l] == i;
            assert(shown(todos[open[k] as int], gid, Filter::Open));
            assert(shown(todos[done[l] as int], gid, Filter::Done));
        }
    }
}

/// No two groups share an identifier, and no two todos do.
pub open spec fn ids_unique(s: AppView) -> bool {
    &&& forall|i: int, j: int|
        0 <= i < j < s.groups.len() ==> #[trigger] s.groups[i].id != #[trigger] s.groups[j].id
    &&& forall|i: int, j: int|
        0 <= i < j < s.todos.len() ==> #[trigger] s.todos[i].id != #[trigger] s.todos[j].id
}

/// With unique identifiers, re-selecting by the selected group's own
/// identifier keeps a group selection that is in range.
proof fn lemma_group_fixpoint(s: AppView)
    requires
        ids_unique(s),
        s.sel_group < s.groups.len(),
    ensures
        s.with_group_selected(s.selected_group_id()) == s,
{
    let ids = group_ids(s.groups);
    let p = s.sel_group as int;
    assert forall|q: int| 0 <= q < p implies ids[q] != ids[p] by {
        assert(s.groups[q].id != s.groups[p].id);
    }
    crate::app::lemma_first_index_is(ids, ids[p], p);
    assert(s.with_group_selected(s.selected_group_id()) =~= s);
}

/// With unique identifiers, re-selecting by the selected todo's own
/// identifier keeps a todo selection that is in range.
proof fn lemma_todo_fixpoint(s: AppView)
    requires
        ids_unique(s),
        s.todos.len() <= usize::MAX,
        selection_in_range(s),
    ensures
        s.with_todo_selected(s.selected_todo_id()) == s,
{
    let v = s.visible();
    if v.len() > 0 {
        if s.selected_group_id() is Some {
            lemma_shown_positions(s.todos, s.selected_group_id()->0, s.filter, s.todos.len() as int);
        }
        let ids = s.visible_ids();
        let p = s.sel_todo as int;
        assert forall|q: int| 0 <= q < p implies ids[q] != ids[p] by {
            assert(v[q] < v[p]);
            assert(s.todos[v[q] as int].id != s.todos[v[p] as int].id);
        }
        crate::app::lemma_first_index_is(ids, ids[p], p);
    }
    assert(s.with_todo_selected(s.selected_todo_id()) =~= s);
}

/// Normalizing the selections puts them in range, changes nothing else, and
/// with unique identifiers keeps a group selection that was in range and a
/// todo selection that was on a listed todo; normalizing twice is the same
/// as once.
pub proof fn law_normalize_keeps_valid_selections(s: AppView)
    requires
        ids_unique(s),
        s.todos.len() <= usize::MAX,
    ensures
        selection_in_range(s.normalized()),
        s.normalized().groups == s.groups,
        s.normalized().todos == s.todos,
        s.normalized().filter == s.filter,
        s.sel_group < s.groups.len() ==> s.normalized().sel_group == s.sel_group,
        (s.sel_group < s.groups.len() && s.selected_todo() is Some) ==> s.normalized().sel_todo
            == s.sel_todo,
        s.normalized().normalized() == s.normalized(),
{
    let s1 = s.with_group_selected(s.selected_group_id());
    lemma_group_reselect_in_range(s, s.selected_group_id());
    lemma_todo_reselect_in_range(s1, s1.selected_todo_id());
    let n = s.normalized();
    if s.sel_group < s.groups.len() {
        lemma_group_fixpoint(s);
        if s.selected_todo() is Some {
            if s.selected_group_id() is Some {
                lemma_shown_positions(s.todos, s.selected_group_id()->0, s.filter, s.todos.len() as int);
            }
            let ids = s.visible_ids();
            let p = s.sel_todo as int;
            let v = s.visible();
            assert forall|q: int| 0 <= q < p implies ids[q] != ids[p] by {
                assert(v[q] < v[p]);
                assert(s.todos[v[q] as int].id != s.todos[v[p] as int].id);
            }
            crate::app::lemma_first_index_is(ids, ids[p], p);
        }
    }
    assert(ids_unique(n));
    if n.groups.len() > 0 {
        lemma_group_fixpoint(n);
    } else {
        assert(n.with_group_selected(n.selected_group_id()) =~= n);
    }
    lemma_todo_fixpoint(n);
}

} // verus!
