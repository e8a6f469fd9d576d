//! The app's state and the step function that applies one user action to it.
use vstd::prelude::*;

use crate::fresh::Fresh;
use crate::laws::{
    app_invariant, keeps_promises, law_invariant_kept, law_step_keeps_promises, lemma_filter_kept,
    selection_in_range, todos_in_groups,
};
use crate::models::{
    is_v4_id, groups_view, todos_view, Filter, Group, GroupView, Mode, Timestamp, Todo, TodoView,
};
use crate::text::{
    backspaced, char_count, insert_char_at, remove_char_before, trim, trimmed, typed,
};

verus! {

/// The panel that the movement and editing keys act on.
#[derive(Debug, Clone, Copy, PartialEq, Eq, Structural)]
pub enum PanelFocus {
    Groups,
    Todos,
}

/// Everything the app shows and edits.
#[derive(Debug)]
pub struct AppState {
    pub groups: Vec<Group>,
    pub todos: Vec<Todo>,
    pub selected_group_index: usize,
    pub selected_todo_index: usize,
    pub focused_panel: PanelFocus,
    pub filter: Filter,
    pub show_help: bool,
    pub mode: Mode,
    pub input_buffer: String,
    pub input_cursor: usize,
    pub status_message: Option<String>,
}

/// An [`AppState`] as a mathematical value.
#[verifier::ext_equal]
pub struct AppView {
    pub groups: Seq<GroupView>,
    pub todos: Seq<TodoView>,
    pub sel_group: usize,
    pub sel_todo: usize,
    pub focus: PanelFocus,
    pub filter: Filter,
    pub show_help: bool,
    pub mode: Mode,
    pub input: Seq<char>,
    pub cursor: usize,
    pub status: Option<Seq<char>>,
}

impl View for AppState {
    type V = AppView;

    open spec fn view(&self) -> AppView {
        AppView {
            groups: groups_view(self.groups@),
            todos: todos_view(self.todos@),
            sel_group: self.selected_group_index,
            sel_todo: self.selected_todo_index,
            focus: self.focused_panel,
            filter: self.filter,
            show_help: self.show_help,
            mode: self.mode,
            input: self.input_buffer@,
            cursor: self.input_cursor,
            status: match self.status_message {
                Some(m) => Some(m@),
                None => None,
            },
        }
    }
}

/// What the user asks for with one key.
#[derive(Debug, Clone, Copy, PartialEq, Eq, Structural)]
pub enum Action {
    MoveUp,
    MoveDown,
    FocusLeft,
    FocusRight,
    StartAdd,
    StartEdit,
    StartDeleteConfirm,
    CycleFilter,
    ToggleSelected,
    ToggleHelp,
    InputChar(char),
    Backspace,
    MoveCursorLeft,
    MoveCursorRight,
    MoveCursorHome,
    MoveCursorEnd,
    Submit,
    Cancel,
    Quit,
    NoOp,
}

/// What the app's loop must do after a step.
#[derive(Debug, Clone, Copy, PartialEq, Eq, Structural)]
pub enum AppCommand {
    Nothing,
    Save,
    Quit,
}

/// The smallest position of `id` in `ids`, if it occurs.
pub open spec fn first_index(ids: Seq<u128>, id: u128) -> Option<int> {
    if ids.contains(id) {
        Some(
            choose|p: int|
                0 <= p < ids.len() && ids[p] == id && forall|q: int|
                    0 <= q < p ==> ids[q] != id,
        )
    } else {
        None
    }
}

/// If position `p` holds `id` and no earlier one does, it is the first index of `id`.
pub proof fn lemma_first_index_is(ids: Seq<u128>, id: u128, p: int)
    requires
        0 <= p < ids.len(),
        ids[p] == id,
        forall|q: int| 0 <= q < p ==> ids[q] != id,
    ensures
        first_index(ids, id) == Some(p),
{
    assert(ids.contains(id));
    let c = choose|c: int|
        0 <= c < ids.len() && ids[c] == id && forall|q: int| 0 <= q < c ==> ids[q] != id;
    assert(0 <= c < ids.len() && ids[c] == id && forall|q: int| 0 <= q < c ==> ids[q] != id);
    if c < p {
        assert(ids[c] != id);
    } else if c > p {
        assert(ids[p] != id);
    }
}

/// The identifiers of a list of groups.
pub open spec fn group_ids(gs: Seq<GroupView>) -> Seq<u128> {
    gs.map_values(|g: GroupView| g.id)
}

/// Whether the todo panel lists `t` when the group `gid` is selected under
/// filter `f`.
pub open spec fn shown(t: TodoView, gid: u128, f: Filter) -> bool {
    t.group_id == gid && f.admits(t.completed)
}

/// The positions among the first `n` todos of those shown for group `gid`
/// under filter `f`, in increasing order.
pub open spec fn shown_positions(todos: Seq<TodoView>, gid: u128, f: Filter, n: int) -> Seq<usize>
    decreases n,
{
    if n <= 0 {
        Seq::empty()
    } else {
        let p = shown_positions(todos, gid, f, n - 1);
        if shown(todos[n - 1], gid, f) {
            p.push((n - 1) as usize)
        } else {
            p
        }
    }
}

/// How many of the first `n` todos belong to group `gid`, and how many of
/// those are completed.
pub open spec fn count_in_group(todos: Seq<TodoView>, gid: u128, n: int) -> nat
    decreases n,
{
    if n <= 0 {
        0
    } else {
        count_in_group(todos, gid, n - 1) + if todos[n - 1].group_id == gid {
            1nat
        } else {
            0nat
        }
    }
}

pub open spec fn count_completed_in_group(todos: Seq<TodoView>, gid: u128, n: int) -> nat
    decreases n,
{
    if n <= 0 {
        0
    } else {
        count_completed_in_group(todos, gid, n - 1) + if todos[n - 1].group_id == gid
            && todos[n - 1].completed {
            1nat
        } else {
            0nat
        }
    }
}

/// A completed todo without a completion date gets the day it was created.
pub open spec fn with_completion_date(t: TodoView) -> TodoView {
    if t.completed && t.completed_at is None {
        TodoView { completed_at: Some(t.created_at.spec_date()), ..t }
    } else {
        t
    }
}

pub open spec fn min_usize(a: usize, b: usize) -> usize {
    if a <= b {
        a
    } else {
        b
    }
}

impl AppView {
    /// The identifier of the selected group, if the selection is on a group.
    pub open spec fn selected_group_id(self) -> Option<u128> {
        if self.sel_group < self.groups.len() {
            Some(self.groups[self.sel_group as int].id)
        } else {
            None
        }
    }

    /// The positions in `todos` of the todos the todo panel lists.
    pub open spec fn visible(self) -> Seq<usize> {
        match self.selected_group_id() {
            Some(gid) => shown_positions(self.todos, gid, self.filter, self.todos.len() as int),
            None => Seq::empty(),
        }
    }

    /// The position in `todos` of the selected todo, if the selection is on one.
    pub open spec fn selected_todo(self) -> Option<usize> {
        if self.sel_todo < self.visible().len() {
            Some(self.visible()[self.sel_todo as int])
        } else {
            None
        }
    }

    pub open spec fn selected_todo_id(self) -> Option<u128> {
        match self.selected_todo() {
            Some(i) => Some(self.todos[i as int].id),
            None => None,
        }
    }

    /// The identifiers of the listed todos, in list order.
    pub open spec fn visible_ids(self) -> Seq<u128> {
        self.visible().map_values(|i: usize| self.todos[i as int].id)
    }

    /// The group selection moved to the first group with identifier `id`, or,
    /// failing that, kept but clamped to the list.
    pub open spec fn with_group_selected(self, id: Option<u128>) -> AppView {
        let n = self.groups.len();
        let pos = match id {
            Some(x) => first_index(group_ids(self.groups), x),
            None => None,
        };
        let sel: usize = if n == 0 {
            0
        } else if pos is Some {
            (pos->0) as usize
        } else {
            min_usize(self.sel_group, (n - 1) as usize)
        };
        AppView { sel_group: sel, ..self }
    }

    /// The todo selection moved to the first listed todo with identifier
    /// `id`, or, failing that, kept but clamped to the list.
    pub open spec fn with_todo_selected(self, id: Option<u128>) -> AppView {
        let n = self.visible().len();
        let pos = match id {
            Some(x) => first_index(self.visible_ids(), x),
            None => None,
        };
        let sel: usize = if n == 0 {
            0
        } else if pos is Some {
            (pos->0) as usize
        } else {
            min_usize(self.sel_todo, (n - 1) as usize)
        };
        AppView { sel_todo: sel, ..self }
    }

    /// Both selections kept on what they point at, or clamped to their lists.
    pub open spec fn normalized(self) -> AppView {
        let s1 = self.with_group_selected(self.selected_group_id());
        s1.with_todo_selected(s1.selected_todo_id())
    }

    /// The dialog closed and its text cleared.
    pub open spec fn dialog_closed(self) -> AppView {
        AppView { mode: Mode::Normal, input: Seq::empty(), cursor: 0, ..self }
    }

    pub open spec fn with_status(self, m: Seq<char>) -> AppView {
        AppView { status: Some(m), ..self }
    }
}

/// What the keys of the lists do.
pub open spec fn normal_step(s: AppView, a: Action, f: Fresh) -> (AppView, AppCommand) {
    match a {
        Action::MoveUp => (
            match s.focus {
                PanelFocus::Groups => if s.sel_group > 0 {
                    AppView { sel_group: (s.sel_group - 1) as usize, ..s }.with_todo_selected(None)
                } else {
                    s
                },
                PanelFocus::Todos => if s.sel_todo > 0 {
                    AppView { sel_todo: (s.sel_todo - 1) as usize, ..s }
                } else {
                    s
                },
            },
            AppCommand::Nothing,
        ),
        Action::MoveDown => (
            match s.focus {
                PanelFocus::Groups => if s.groups.len() > 0 {
                    AppView {
                        sel_group: min_usize((s.sel_group + 1) as usize, (s.groups.len() - 1) as usize),
                        ..s
                    }.with_todo_selected(None)
                } else {
                    s
                },
                PanelFocus::Todos => if s.visible().len() > 0 {
                    AppView {
                        sel_todo: min_usize((s.sel_todo + 1) as usize, (s.visible().len() - 1) as usize),
                        ..s
                    }
                } else {
                    s
                },
            },
            AppCommand::Nothing,
        ),
        Action::FocusLeft => (AppView { focus: PanelFocus::Groups, ..s }, AppCommand::Nothing),
        Action::FocusRight => (AppView { focus: PanelFocus::Todos, ..s }, AppCommand::Nothing),
        Action::StartAdd => (
            AppView {
                input: Seq::empty(),
                cursor: 0,
                status: None,
                mode: match s.focus {
                    PanelFocus::Groups => Mode::AddingGroup,
                    PanelFocus::Todos => Mode::AddingTodo,
                },
                ..s
            },
            AppCommand::Nothing,
        ),
        Action::StartEdit => (
            match s.focus {
                PanelFocus::Groups => if s.sel_group < s.groups.len() {
                    let name = s.groups[s.sel_group as int].name;
                    AppView {
                        mode: Mode::EditingGroup,
                        input: name,
                        cursor: name.len() as usize,
                        status: None,
                        ..s
                    }
                } else {
                    s.with_status("No group selected to edit"@)
                },
                PanelFocus::Todos => match s.selected_todo() {
                    Some(i) => {
                        let title = s.todos[i as int].title;
                        AppView {
                            mode: Mode::EditingTodo,
                            input: title,
                            cursor: title.len() as usize,
                            status: None,
                            ..s
                        }
                    },
                    None => s.with_status("No todo selected to edit"@),
                },
            },
            AppCommand::Nothing,
        ),
        Action::StartDeleteConfirm => (
            match s.focus {
                PanelFocus::Groups => if s.groups.len() <= 1 {
                    s.with_status("Cannot delete the last group"@)
                } else if s.sel_group < s.groups.len() {
                    AppView { mode: Mode::ConfirmDeleteGroup, status: None, ..s }
                } else {
                    s.with_status("No group selected to delete"@)
                },
                PanelFocus::Todos => if s.selected_todo() is Some {
                    AppView { mode: Mode::ConfirmDeleteTodo, status: None, ..s }
                } else {
                    s.with_status("No todo selected to delete"@)
                },
            },
            AppCommand::Nothing,
        ),
        Action::CycleFilter => (
            if s.focus == PanelFocus::Todos {
                AppView { filter: s.filter.spec_next(), ..s }.with_todo_selected(
                    s.selected_todo_id(),
                )
            } else {
                s
            },
            AppCommand::Nothing,
        ),
        Action::ToggleSelected => if s.focus == PanelFocus::Todos {
            match s.selected_todo() {
                Some(i) => {
                    let t = s.todos[i as int];
                    let done = !t.completed;
                    let t2 = TodoView {
                        completed: done,
                        completed_at: if done {
                            Some(f.now.spec_date())
                        } else {
                            None
                        },
                        ..t
                    };
                    (
                        AppView { todos: s.todos.update(i as int, t2), status: None, ..s }.with_todo_selected(
                            Some(t.id),
                        ),
                        AppCommand::Save,
                    )
                },
                None => (s.with_status("No todo selected to toggle"@), AppCommand::Nothing),
            }
        } else {
            (s, AppCommand::Nothing)
        },
        Action::ToggleHelp => (AppView { show_help: !s.show_help, ..s }, AppCommand::Nothing),
        Action::Quit => (s, AppCommand::Quit),
        _ => (s, AppCommand::Nothing),
    }
}

/// What Enter does in a text dialog, once the text is known not to be blank.
pub open spec fn submit_text_step(s: AppView, value: Seq<char>, f: Fresh) -> (AppView, AppCommand) {
    match s.mode {
        Mode::AddingGroup => {
            let g = GroupView { id: f.id, name: value, created_at: f.now };
            (
                AppView {
                    groups: s.groups.insert(0, g),
                    status: None,
                    ..s.dialog_closed()
                }.with_group_selected(Some(f.id)).with_todo_selected(None),
                AppCommand::Save,
            )
        },
        Mode::EditingGroup => if s.sel_group < s.groups.len() {
            let g = s.groups[s.sel_group as int];
            (
                AppView {
                    groups: s.groups.update(s.sel_group as int, GroupView { name: value, ..g }),
                    status: None,
                    ..s.dialog_closed()
                },
                AppCommand::Save,
            )
        } else {
            (s.dialog_closed().with_status("No group selected to edit"@), AppCommand::Nothing)
        },
        Mode::AddingTodo => match s.selected_group_id() {
            Some(gid) => {
                let t = TodoView {
                    id: f.id,
                    group_id: gid,
                    title: value,
                    completed: false,
                    created_at: f.now,
                    completed_at: None,
                };
                (
                    AppView {
                        todos: s.todos.insert(0, t),
                        status: None,
                        ..s.dialog_closed()
                    }.with_todo_selected(Some(f.id)),
                    AppCommand::Save,
                )
            },
            None => (
                s.dialog_closed().with_status("No group selected for new todo"@),
                AppCommand::Nothing,
            ),
        },
        Mode::EditingTodo => match s.selected_todo() {
            Some(i) => {
                let t = s.todos[i as int];
                (
                    AppView {
                        todos: s.todos.update(i as int, TodoView { title: value, ..t }),
                        status: None,
                        ..s.dialog_closed()
                    },
                    AppCommand::Save,
                )
            },
            None => (s.dialog_closed().with_status("No todo selected to edit"@), AppCommand::Nothing),
        },
        _ => (s, AppCommand::Nothing),
    }
}

/// What the keys do in a dialog that edits a line of text.
pub open spec fn text_step(s: AppView, a: Action, f: Fresh) -> (AppView, AppCommand) {
    let n = s.input.len();
    match a {
        Action::InputChar(c) => (
            AppView {
                input: typed(s.input, s.cursor as int, c),
                cursor: (s.cursor + 1) as usize,
                ..s
            },
            AppCommand::Nothing,
        ),
        Action::Backspace => (
            if s.cursor == 0 {
                s
            } else {
                AppView {
                    input: backspaced(s.input, s.cursor as int),
                    cursor: (s.cursor - 1) as usize,
                    ..s
                }
            },
            AppCommand::Nothing,
        ),
        Action::MoveCursorLeft => (
            AppView {
                cursor: if s.cursor > 0 {
                    (s.cursor - 1) as usize
                } else {
                    0
                },
                ..s
            },
            AppCommand::Nothing,
        ),
        Action::MoveCursorRight => (
            AppView { cursor: min_usize((s.cursor + 1) as usize, n as usize), ..s },
            AppCommand::Nothing,
        ),
        Action::MoveCursorHome => (AppView { cursor: 0, ..s }, AppCommand::Nothing),
        Action::MoveCursorEnd => (AppView { cursor: n as usize, ..s }, AppCommand::Nothing),
        Action::Cancel => (s.dialog_closed(), AppCommand::Nothing),
        Action::Submit => {
            let value = trimmed(s.input);
            if value.len() == 0 {
                (s.with_status("Title cannot be empty"@), AppCommand::Nothing)
            } else {
                submit_text_step(s, value, f)
            }
        },
        _ => (s, AppCommand::Nothing),
    }
}

/// What the keys do in a dialog that asks to confirm a deletion.
pub open spec fn confirm_step(s: AppView, a: Action) -> (AppView, AppCommand) {
    match a {
        Action::Submit => match s.mode {
            Mode::ConfirmDeleteGroup => if s.groups.len() <= 1 {
                (
                    AppView { mode: Mode::Normal, ..s }.with_status(
                        "Cannot delete the last group"@,
                    ),
                    AppCommand::Nothing,
                )
            } else if s.sel_group < s.groups.len() {
                let gid = s.groups[s.sel_group as int].id;
                (
                    AppView {
                        groups: s.groups.remove(s.sel_group as int),
                        todos: s.todos.filter(|t: TodoView| t.group_id != gid),
                        status: None,
                        ..s.dialog_closed()
                    }.normalized(),
                    AppCommand::Save,
                )
            } else {
                (
                    AppView { mode: Mode::Normal, ..s }.with_status("No group selected to delete"@),
                    AppCommand::Nothing,
                )
            },
            Mode::ConfirmDeleteTodo => match s.selected_todo() {
                Some(i) => (
                    AppView {
                        todos: s.todos.remove(i as int),
                        status: None,
                        ..s.dialog_closed()
                    }.with_todo_selected(None),
                    AppCommand::Save,
                ),
                None => (
                    AppView { mode: Mode::Normal, ..s }.with_status("No todo selected to delete"@),
                    AppCommand::Nothing,
                ),
            },
            _ => (s, AppCommand::Nothing),
        },
        Action::Cancel => (AppView { mode: Mode::Normal, cursor: 0, ..s }, AppCommand::Nothing),
        _ => (s, AppCommand::Nothing),
    }
}

/// One step of the app: the state after action `a`, and what the loop must
/// do next. `f` supplies the identifier and the time that a new group or
/// todo, or a completion date, takes.
pub open spec fn step(s: AppView, a: Action, f: Fresh) -> (AppView, AppCommand) {
    if s.mode is Normal {
        normal_step(s, a, f)
    } else if s.mode.is_text_input() {
        text_step(s, a, f)
    } else {
        confirm_step(s, a)
    }
}

/// The steps whose arithmetic stays within `usize`: moving a selection or the
/// cursor one further, or typing a character, needs one more position.
pub open spec fn step_fits(s: AppView, a: Action) -> bool {
    &&& (s.mode is Normal && a is MoveDown && s.focus == PanelFocus::Groups && s.groups.len() > 0)
        ==> s.sel_group < usize::MAX
    &&& (s.mode is Normal && a is MoveDown && s.focus == PanelFocus::Todos && s.visible().len()
        > 0) ==> s.sel_todo < usize::MAX
    &&& (s.mode.is_text_input() && (a is InputChar || a is MoveCursorRight)) ==> s.cursor
        < usize::MAX
}

/// Every position listed lies inside the todo list.
proof fn lemma_shown_positions_bounded(todos: Seq<TodoView>, gid: u128, f: Filter, n: int)
    requires
        n <= todos.len(),
    ensures
        forall|k: int| 0 <= k < shown_positions(todos, gid, f, n).len()
            ==> (#[trigger] shown_positions(todos, gid, f, n)[k]) < n,
        shown_positions(todos, gid, f, n).len() <= if n <= 0 { 0 } else { n },
    decreases n,
{
    if n > 0 {
        lemma_shown_positions_bounded(todos, gid, f, n - 1);
    }
}

impl AppState {
    /// The identifier of the selected group, if the selection is on a group.
    pub fn selected_group_id(&self) -> (r: Option<u128>)
        ensures
            r == self@.selected_group_id(),
    {
        if self.selected_group_index < self.groups.len() {
            Some(self.groups[self.selected_group_index].id)
        } else {
            None
        }
    }

    /// The positions in `todos` of the todos the todo panel lists: those of
    /// the selected group that pass the filter, in list order.
    pub fn filtered_todo_indices(&self) -> (r: Vec<usize>)
        ensures
            r@ == self@.visible(),
    {
        let group_id = match self.selected_group_id() {
            Some(g) => g,
            None => {
                return Vec::new();
            },
        };
        let mut r: Vec<usize> = Vec::new();
        let mut i: usize = 0;
        while i < self.todos.len()
            invariant
                i <= self.todos.len(),
                self@.selected_group_id() == Some(group_id),
                r@ == shown_positions(self@.todos, group_id, self.filter, i as int),
            decreases self.todos.len() - i,
        {
            let t = &self.todos[i];
            let passes = match self.filter {
                Filter::All => true,
                Filter::Open => !t.completed,
                Filter::Done => t.completed,
            };
            assert(self@.todos[i as int] == t@);
            if t.group_id == group_id && passes {
                r.push(i);
            }
            i = i + 1;
        }
        r
    }

    /// The position in `todos` of the selected todo, if the selection is on one.
    pub fn selected_todo_index(&self) -> (r: Option<usize>)
        ensures
            r == self@.selected_todo(),
    {
        let visible = self.filtered_todo_indices();
        if self.selected_todo_index < visible.len() {
            Some(visible[self.selected_todo_index])
        } else {
            None
        }
    }

    /// The identifier of the selected todo, if the selection is on one.
    pub fn selected_todo_id(&self) -> (r: Option<u128>)
        ensures
            r == self@.selected_todo_id(),
    {
        match self.selected_todo_index() {
            Some(idx) => {
                proof {
                    lemma_shown_positions_bounded(self@.todos, self@.selected_group_id()->0, self.filter, self@.todos.len() as int);
                }
                Some(self.todos[idx].id)
            },
            None => None,
        }
    }

    /// How many todos of group `group_id` are completed, and how many there
    /// are.
    pub fn group_progress(&self, group_id: u128) -> (r: (usize, usize))
        ensures
            r.0 == count_completed_in_group(self@.todos, group_id, self@.todos.len() as int),
            r.1 == count_in_group(self@.todos, group_id, self@.todos.len() as int),
    {
        let mut total: usize = 0;
        let mut completed: usize = 0;
        let mut i: usize = 0;
        while i < self.todos.len()
            invariant
                i <= self.todos.len(),
                total == count_in_group(self@.todos, group_id, i as int),
                completed == count_completed_in_group(self@.todos, group_id, i as int),
                total <= i,
                completed <= total,
            decreases self.todos.len() - i,
        {
            assert(self@.todos[i as int] == self.todos[i as int]@);
            if self.todos[i].group_id == group_id {
                total = total + 1;
                if self.todos[i].completed {
                    completed = completed + 1;
                }
            }
            i = i + 1;
        }
        (completed, total)
    }

    /// Moves the group selection to the first group with identifier `id`,
    /// or, failing that, clamps it to the list.
    fn set_group_selection_by_id_or_clamp(&mut self, id: Option<u128>)
        ensures
            final(self)@ == old(self)@.with_group_selected(id),
    {
        let n = self.groups.len();
        if n == 0 {
            self.selected_group_index = 0;
            return;
        }
        if let Some(x) = id {
            let mut p: usize = 0;
            while p < n
                invariant
                    n == self.groups.len(),
                    p <= n,
                    forall|q: int| 0 <= q < p ==> group_ids(self@.groups)[q] != x,
                    self@ == old(self)@,
                    id == Some(x),
                decreases n - p,
            {
                assert(group_ids(self@.groups)[p as int] == self.groups[p as int].id);
                if self.groups[p].id == x {
                    proof {
                        lemma_first_index_is(group_ids(self@.groups), x, p as int);
                    }
                    self.selected_group_index = p;
                    assert(self@ =~= old(self)@.with_group_selected(id));
                    return;
                }
                p = p + 1;
            }
            assert(!group_ids(self@.groups).contains(x));
        }
        if self.selected_group_index > n - 1 {
            self.selected_group_index = n - 1;
        }
    }

    /// Moves the todo selection to the first listed todo with identifier
    /// `id`, or, failing that, clamps it to the list.
    fn set_todo_selection_by_id_or_clamp(&mut self, id: Option<u128>)
        ensures
            final(self)@ == old(self)@.with_todo_selected(id),
    {
        let visible = self.filtered_todo_indices();
        let n = visible.len();
        if n == 0 {
            self.selected_todo_index = 0;
            return;
        }
        proof {
            lemma_shown_positions_bounded(self@.todos, self@.selected_group_id()->0, self.filter, self@.todos.len() as int);
        }
        if let Some(x) = id {
            let mut p: usize = 0;
            while p < n
                invariant
                    n == visible.len(),
                    visible@ == self@.visible(),
                    forall|k: int| 0 <= k < visible@.len() ==> visible@[k] < self@.todos.len(),
                    p <= n,
                    forall|q: int| 0 <= q < p ==> self@.visible_ids()[q] != x,
                    self@ == old(self)@,
                    id == Some(x),
                decreases n - p,
            {
                let idx = visible[p];
                assert(self@.visible_ids()[p as int] == self.todos[idx as int].id);
                if self.todos[idx].id == x {
                    proof {
                        lemma_first_index_is(self@.visible_ids(), x, p as int);
                    }
                    self.selected_todo_index = p;
                    assert(self@ =~= old(self)@.with_todo_selected(id));
                    return;
                }
                p = p + 1;
            }
            assert(!self@.visible_ids().contains(x));
        }
        if self.selected_todo_index > n - 1 {
            self.selected_todo_index = n - 1;
        }
    }

    /// Keeps both selections on what they point at, or clamps them to their
    /// lists.
    pub fn normalize_selection(&mut self)
        ensures
            final(self)@ == old(self)@.normalized(),
    {
        let selected_group_id = self.selected_group_id();
        self.set_group_selection_by_id_or_clamp(selected_group_id);
        let selected_todo_id = self.selected_todo_id();
        self.set_todo_selection_by_id_or_clamp(selected_todo_id);
    }
}

impl AppState {
    /// The number of characters in the dialog's text.
    fn input_len(&self) -> (n: usize)
        ensures
            n == self.input_buffer@.len(),
    {
        char_count(self.input_buffer.as_str())
    }

    /// Types `c` at the cursor (at the end when the cursor stands past it)
    /// and moves the cursor one on.
    fn insert_input_char(&mut self, c: char)
        requires
            old(self).input_cursor < usize::MAX,
        ensures
            final(self)@ == (AppView {
                input: typed(old(self)@.input, old(self)@.cursor as int, c),
                cursor: (old(self)@.cursor + 1) as usize,
                ..old(self)@
            }),
    {
        self.input_buffer = insert_char_at(&self.input_buffer, self.input_cursor, c);
        self.input_cursor = self.input_cursor + 1;
    }

    /// Deletes the character before the cursor and moves the cursor one back;
    /// nothing happens at the start.
    fn backspace_input_char(&mut self)
        ensures
            final(self)@ == (if old(self)@.cursor == 0 {
                old(self)@
            } else {
                AppView {
                    input: backspaced(old(self)@.input, old(self)@.cursor as int),
                    cursor: (old(self)@.cursor - 1) as usize,
                    ..old(self)@
                }
            }),
    {
        if self.input_cursor == 0 {
            return;
        }
        self.input_buffer = remove_char_before(&self.input_buffer, self.input_cursor);
        self.input_cursor = self.input_cursor - 1;
    }

    fn move_input_cursor_left(&mut self)
        ensures
            final(self)@ == (AppView {
                cursor: if old(self)@.cursor > 0 { (old(self)@.cursor - 1) as usize } else { 0 },
                ..old(self)@
            }),
    {
        if self.input_cursor > 0 {
            self.input_cursor = self.input_cursor - 1;
        }
    }

    fn move_input_cursor_right(&mut self)
        requires
            old(self).input_cursor < usize::MAX,
        ensures
            final(self)@ == (AppView {
                cursor: min_usize((old(self)@.cursor + 1) as usize, old(self)@.input.len() as usize),
                ..old(self)@
            }),
    {
        let n = self.input_len();
        let next = self.input_cursor + 1;
        self.input_cursor = if next <= n {
            next
        } else {
            n
        };
    }

    fn move_input_cursor_home(&mut self)
        ensures
            final(self)@ == (AppView { cursor: 0, ..old(self)@ }),
    {
        self.input_cursor = 0;
    }

    fn move_input_cursor_end(&mut self)
        ensures
            final(self)@ == (AppView { cursor: old(self)@.input.len() as usize, ..old(self)@ }),
    {
        self.input_cursor = self.input_len();
    }
}

/// The selected todo, when there is one, lies inside the todo list.
pub proof fn lemma_selected_todo_in_range(s: AppView)
    ensures
        s.selected_todo() is Some ==> s.selected_todo()->0 < s.todos.len(),
        forall|k: int| 0 <= k < s.visible().len() ==> #[trigger] s.visible()[k] < s.todos.len(),
{
    if s.selected_group_id() is Some {
        lemma_shown_positions_bounded(s.todos, s.selected_group_id()->0, s.filter, s.todos.len() as int);
    }
}

/// Applies a key of the lists.
fn handle_normal_mode(action: Action, state: &mut AppState, fresh: Fresh) -> (cmd: AppCommand)
    requires
        old(state).mode is Normal,
        step_fits(old(state)@, action),
    ensures
        (final(state)@, cmd) == normal_step(old(state)@, action, fresh),
{
    match action {
        Action::MoveUp => {
            match state.focused_panel {
                PanelFocus::Groups => {
                    if state.selected_group_index > 0 {
                        state.selected_group_index = state.selected_group_index - 1;
                        state.set_todo_selection_by_id_or_clamp(None);
                    }
                },
                PanelFocus::Todos => {
                    if state.selected_todo_index > 0 {
                        state.selected_todo_index = state.selected_todo_index - 1;
                    }
                },
            }
            AppCommand::Nothing
        },
        Action::MoveDown => {
            match state.focused_panel {
                PanelFocus::Groups => {
                    let len = state.groups.len();
                    if len > 0 {
                        let next = state.selected_group_index + 1;
                        state.selected_group_index = if next <= len - 1 {
                            next
                        } else {
                            len - 1
                        };
                        state.set_todo_selection_by_id_or_clamp(None);
                    }
                },
                PanelFocus::Todos => {
                    let len = state.filtered_todo_indices().len();
                    if len > 0 {
                        let next = state.selected_todo_index + 1;
                        state.selected_todo_index = if next <= len - 1 {
                            next
                        } else {
                            len - 1
                        };
                    }
                },
            }
            AppCommand::Nothing
        },
        Action::FocusLeft => {
            state.focused_panel = PanelFocus::Groups;
            AppCommand::Nothing
        },
        Action::FocusRight => {
            state.focused_panel = PanelFocus::Todos;
            AppCommand::Nothing
        },
        Action::StartAdd => {
            state.input_buffer = String::new();
            state.input_cursor = 0;
            state.status_message = None;
            state.mode = match state.focused_panel {
                PanelFocus::Groups => Mode::AddingGroup,
                PanelFocus::Todos => Mode::AddingTodo,
            };
            AppCommand::Nothing
        },
        Action::StartEdit => {
            match state.focused_panel {
                PanelFocus::Groups => {
                    if state.selected_group_index < state.groups.len() {
                        assert(state@.groups[state.selected_group_index as int]
                            == state.groups[state.selected_group_index as int]@);
                        state.mode = Mode::EditingGroup;
                        state.input_buffer = state.groups[state.selected_group_index].name.clone();
                        state.input_cursor = state.input_len();
                        state.status_message = None;
                    } else {
                        state.status_message = Some("No group selected to edit".to_owned());
                    }
                },
                PanelFocus::Todos => {
                    if let Some(idx) = state.selected_todo_index() {
                        proof {
                            lemma_selected_todo_in_range(state@);
                        }
                        assert(state@.todos[idx as int] == state.todos[idx as int]@);
                        state.mode = Mode::EditingTodo;
                        state.input_buffer = state.todos[idx].title.clone();
                        state.input_cursor = state.input_len();
                        state.status_message = None;
                    } else {
                        state.status_message = Some("No todo selected to edit".to_owned());
                    }
                },
            }
            AppCommand::Nothing
        },
        Action::StartDeleteConfirm => {
            match state.focused_panel {
                PanelFocus::Groups => {
                    if state.groups.len() <= 1 {
                        state.status_message = Some("Cannot delete the last group".to_owned());
                    } else if state.selected_group_index < state.groups.len() {
                        state.mode = Mode::ConfirmDeleteGroup;
                        state.status_message = None;
                    } else {
                        state.status_message = Some("No group selected to delete".to_owned());
                    }
                },
                PanelFocus::Todos => {
                    if state.selected_todo_index().is_some() {
                        state.mode = Mode::ConfirmDeleteTodo;
                        state.status_message = None;
                    } else {
                        state.status_message = Some("No todo selected to delete".to_owned());
                    }
                },
            }
            AppCommand::Nothing
        },
        Action::CycleFilter => {
            if state.focused_panel == PanelFocus::Todos {
                let selected_id = state.selected_todo_id();
                state.filter = state.filter.next();
                state.set_todo_selection_by_id_or_clamp(selected_id);
            }
            AppCommand::Nothing
        },
        Action::ToggleSelected => {
            if state.focused_panel == PanelFocus::Todos {
                if let Some(idx) = state.selected_todo_index() {
                    proof {
                        lemma_selected_todo_in_range(state@);
                    }
                    let ghost s0 = state@;
                    let selected_id = state.todos[idx].id;
                    let done = !state.todos[idx].completed;
                    state.todos[idx].completed = done;
                    if done {
                        state.todos[idx].completed_at = Some(fresh.now.date());
                    } else {
                        state.todos[idx].completed_at = None;
                    }
                    proof {
                        let t = s0.todos[idx as int];
                        let t2 = TodoView {
                            completed: done,
                            completed_at: if done { Some(fresh.now.spec_date()) } else { None },
                            ..t
                        };
                        assert(state@.todos =~= s0.todos.update(idx as int, t2));
                    }
                    state.set_todo_selection_by_id_or_clamp(Some(selected_id));
                    state.status_message = None;
                    return AppCommand::Save;
                }
                state.status_message = Some("No todo selected to toggle".to_owned());
            }
            AppCommand::Nothing
        },
        Action::ToggleHelp => {
            state.show_help = !state.show_help;
            AppCommand::Nothing
        },
        Action::Quit => AppCommand::Quit,
        Action::NoOp
        | Action::InputChar(_)
        | Action::Backspace
        | Action::MoveCursorLeft
        | Action::MoveCursorRight
        | Action::MoveCursorHome
        | Action::MoveCursorEnd
        | Action::Submit
        | Action::Cancel => AppCommand::Nothing,
    }
}

/// Whether `ids` holds `x`.
fn contains_id(ids: &Vec<u128>, x: u128) -> (b: bool)
    ensures
        b == ids@.contains(x),
{
    let mut i: usize = 0;
    while i < ids.len()
        invariant
            i <= ids.len(),
            forall|k: int| 0 <= k < i ==> ids@[k] != x,
        decreases ids.len() - i,
    {
        if ids[i] == x {
            return true;
        }
        i = i + 1;
    }
    false
}

/// The todos whose group is among `ids` (when `members`) or is not (when
/// not), in their order.
fn retain_todos(todos: Vec<Todo>, ids: &Vec<u128>, members: bool) -> (kept: Vec<Todo>)
    ensures
        todos_view(kept@) == todos_view(todos@).filter(
            |t: TodoView| ids@.contains(t.group_id) == members,
        ),
{
    let ghost pred = |t: TodoView| ids@.contains(t.group_id) == members;
    let ghost orig = todos_view(todos@);
    let mut rest = todos;
    let mut kept: Vec<Todo> = Vec::new();
    let ghost mut i: int = 0;
    while rest.len() > 0
        invariant
            0 <= i <= orig.len(),
            todos_view(rest@) == orig.subrange(i, orig.len() as int),
            todos_view(kept@) == orig.take(i).filter(pred),
            pred == (|t: TodoView| ids@.contains(t.group_id) == members),
        decreases rest.len(),
    {
        let ghost rest0 = rest@;
        let t = rest.remove(0);
        proof {
            assert(todos_view(rest0)[0] == t@);
            assert(todos_view(rest0).len() == rest0.len());
            assert(orig.subrange(i, orig.len() as int)[0] == orig[i]);
            assert(orig[i] == t@);
            assert forall|k: int| 0 <= k < todos_view(rest@).len() implies todos_view(rest@)[k]
                == orig.subrange(i + 1, orig.len() as int)[k] by {
                assert(todos_view(rest0)[k + 1] == orig.subrange(i, orig.len() as int)[k + 1]);
            }
            assert(todos_view(rest@) =~= orig.subrange(i + 1, orig.len() as int));
            assert(orig.take(i + 1).drop_last() =~= orig.take(i));
            assert(orig.take(i + 1).last() == orig[i]);
            reveal(Seq::filter);
        }
        if contains_id(ids, t.group_id) == members {
            let ghost k0 = kept@;
            kept.push(t);
            proof {
                assert(todos_view(kept@) =~= todos_view(k0).push(orig[i]));
            }
        }
        proof {
            i = i + 1;
        }
    }
    proof {
        assert(orig.take(i) =~= orig);
    }
    kept
}

/// Applies a key of a text dialog.
fn handle_text_input_modal(action: Action, state: &mut AppState, fresh: Fresh) -> (cmd: AppCommand)
    requires
        old(state).mode.is_text_input(),
        step_fits(old(state)@, action),
    ensures
        (final(state)@, cmd) == text_step(old(state)@, action, fresh),
{
    match action {
        Action::InputChar(c) => {
            state.insert_input_char(c);
            AppCommand::Nothing
        },
        Action::Backspace => {
            state.backspace_input_char();
            AppCommand::Nothing
        },
        Action::MoveCursorLeft => {
            state.move_input_cursor_left();
            AppCommand::Nothing
        },
        Action::MoveCursorRight => {
            state.move_input_cursor_right();
            AppCommand::Nothing
        },
        Action::MoveCursorHome => {
            state.move_input_cursor_home();
            AppCommand::Nothing
        },
        Action::MoveCursorEnd => {
            state.move_input_cursor_end();
            AppCommand::Nothing
        },
        Action::Cancel => {
            state.mode = Mode::Normal;
            state.input_buffer = String::new();
            state.input_cursor = 0;
            AppCommand::Nothing
        },
        Action::Submit => {
            let value = trim(&state.input_buffer);
            if value.as_str().is_empty() {
                state.status_message = Some("Title cannot be empty".to_owned());
                return AppCommand::Nothing;
            }
            match state.mode {
                Mode::AddingGroup => {
                    let group = Group { id: fresh.id, name: value, created_at: fresh.now };
                    let group_id = group.id;
                    let ghost g0 = state.groups@;
                    state.groups.insert(0, group);
                    proof {
                        assert(groups_view(state.groups@) =~= groups_view(g0).insert(0, group@));
                    }
                    state.mode = Mode::Normal;
                    state.input_buffer = String::new();
                    state.input_cursor = 0;
                    state.status_message = None;
                    state.set_group_selection_by_id_or_clamp(Some(group_id));
                    state.set_todo_selection_by_id_or_clamp(None);
                    AppCommand::Save
                },
                Mode::EditingGroup => {
                    if state.selected_group_index < state.groups.len() {
                        let ghost g0 = state.groups@;
                        let sel = state.selected_group_index;
                        state.groups[sel].name = value;
                        proof {
                            assert(groups_view(state.groups@) =~= groups_view(g0).update(
                                sel as int,
                                GroupView { name: value@, ..groups_view(g0)[sel as int] },
                            ));
                        }
                        state.mode = Mode::Normal;
                        state.input_buffer = String::new();
                        state.input_cursor = 0;
                        state.status_message = None;
                        AppCommand::Save
                    } else {
                        state.mode = Mode::Normal;
                        state.input_buffer = String::new();
                        state.input_cursor = 0;
                        state.status_message = Some("No group selected to edit".to_owned());
                        AppCommand::Nothing
                    }
                },
                Mode::AddingTodo => {
                    if let Some(group_id) = state.selected_group_id() {
                        let todo = Todo {
                            id: fresh.id,
                            group_id,
                            title: value,
                            completed: false,
                            created_at: fresh.now,
                            completed_at: None,
                        };
                        let todo_id = todo.id;
                        let ghost t0 = state.todos@;
                        state.todos.insert(0, todo);
                        proof {
                            assert(todos_view(state.todos@) =~= todos_view(t0).insert(0, todo@));
                        }
                        state.mode = Mode::Normal;
                        state.input_buffer = String::new();
                        state.input_cursor = 0;
                        state.status_message = None;
                        state.set_todo_selection_by_id_or_clamp(Some(todo_id));
                        AppCommand::Save
                    } else {
                        state.mode = Mode::Normal;
                        state.input_buffer = String::new();
                        state.input_cursor = 0;
                        state.status_message = Some("No group selected for new todo".to_owned());
                        AppCommand::Nothing
                    }
                },
                Mode::EditingTodo => {
                    if let Some(idx) = state.selected_todo_index() {
                        proof {
                            lemma_selected_todo_in_range(state@);
                        }
                        let ghost t0 = state.todos@;
                        state.todos[idx].title = value;
                        proof {
                            assert(todos_view(state.todos@) =~= todos_view(t0).update(
                                idx as int,
                                TodoView { title: value@, ..todos_view(t0)[idx as int] },
                            ));
                        }
                        state.mode = Mode::Normal;
                        state.input_buffer = String::new();
                        state.input_cursor = 0;
                        state.status_message = None;
                        AppCommand::Save
                    } else {
                        state.mode = Mode::Normal;
                        state.input_buffer = String::new();
                        state.input_cursor = 0;
                        state.status_message = Some("No todo selected to edit".to_owned());
                        AppCommand::Nothing
                    }
                },
                _ => AppCommand::Nothing,
            }
        },
        _ => AppCommand::Nothing,
    }
}

/// Applies a key of a dialog that confirms a deletion.
fn handle_confirm_delete_modal(action: Action, state: &mut AppState) -> (cmd: AppCommand)
    requires
        old(state).mode.is_confirm_delete(),
    ensures
        (final(state)@, cmd) == confirm_step(old(state)@, action),
{
    match action {
        Action::Submit => match state.mode {
            Mode::ConfirmDeleteGroup => {
                if state.groups.len() <= 1 {
                    state.mode = Mode::Normal;
                    state.status_message = Some("Cannot delete the last group".to_owned());
                    return AppCommand::Nothing;
                }
                if state.selected_group_index < state.groups.len() {
                    let ghost s0 = state@;
                    let sel = state.selected_group_index;
                    let group_id = state.groups[sel].id;
                    assert(s0.groups[sel as int].id == group_id);
                    let ghost g0 = state.groups@;
                    let _removed = state.groups.remove(sel);
                    proof {
                        assert(groups_view(state.groups@) =~= groups_view(g0).remove(sel as int));
                    }
                    let mut todos = Vec::new();
                    std::mem::swap(&mut todos, &mut state.todos);
                    let mut ids: Vec<u128> = Vec::new();
                    ids.push(group_id);
                    state.todos = retain_todos(todos, &ids, false);
                    proof {
                        assert forall|x: u128| ids@.contains(x) <==> x == group_id by {
                            if x == group_id {
                                assert(ids@[0] == x);
                            }
                        }
                        assert((|t: TodoView| ids@.contains(t.group_id) == false) =~= (|t: TodoView|
                            t.group_id != group_id));
                    }
                    state.mode = Mode::Normal;
                    state.input_buffer = String::new();
                    state.input_cursor = 0;
                    state.status_message = None;
                    state.normalize_selection();
                    AppCommand::Save
                } else {
                    state.mode = Mode::Normal;
                    state.status_message = Some("No group selected to delete".to_owned());
                    AppCommand::Nothing
                }
            },
            Mode::ConfirmDeleteTodo => {
                if let Some(idx) = state.selected_todo_index() {
                    proof {
                        lemma_selected_todo_in_range(state@);
                    }
                    let ghost t0 = state.todos@;
                    let _removed = state.todos.remove(idx);
                    proof {
                        assert(todos_view(state.todos@) =~= todos_view(t0).remove(idx as int));
                    }
                    state.mode = Mode::Normal;
                    state.input_buffer = String::new();
                    state.input_cursor = 0;
                    state.status_message = None;
                    state.set_todo_selection_by_id_or_clamp(None);
                    AppCommand::Save
                } else {
                    state.mode = Mode::Normal;
                    state.status_message = Some("No todo selected to delete".to_owned());
                    AppCommand::Nothing
                }
            },
            _ => AppCommand::Nothing,
        },
        Action::Cancel => {
            state.mode = Mode::Normal;
            state.input_cursor = 0;
            AppCommand::Nothing
        },
        _ => AppCommand::Nothing,
    }
}

/// The view of a fresh app state over the given lists: both selections at
/// the top, the todo panel focused, no filter, help shown, no dialog.
pub open spec fn initial_view(groups: Seq<GroupView>, todos: Seq<TodoView>) -> AppView {
    AppView {
        groups,
        todos,
        sel_group: 0,
        sel_todo: 0,
        focus: PanelFocus::Todos,
        filter: Filter::All,
        show_help: true,
        mode: Mode::Normal,
        input: Seq::empty(),
        cursor: 0,
        status: None,
    }
}

/// The todos of the listed groups, with completion dates filled in.
pub open spec fn loaded_todos(todos: Seq<TodoView>, groups: Seq<GroupView>) -> Seq<TodoView> {
    todos.map_values(|t: TodoView| with_completion_date(t)).filter(
        |t: TodoView| group_ids(groups).contains(t.group_id),
    )
}

impl AppState {
    /// The app state over loaded groups and todos. A completed todo without a
    /// completion date gets the day it was created; an empty group list gets
    /// a group named "Inbox"; todos of groups that are not in the list are
    /// dropped. Both selections start at the top.
    pub fn new(groups: Vec<Group>, todos: Vec<Todo>) -> (s: AppState)
        ensures
            groups@.len() > 0 ==> s@.groups == groups_view(groups@),
            groups@.len() == 0 ==> s@.groups.len() == 1 && s@.groups[0].name == "Inbox"@
                && is_v4_id(s@.groups[0].id),
            s@ == initial_view(s@.groups, loaded_todos(todos_view(todos@), s@.groups)),
            s@.groups.len() >= 1,
            todos_in_groups(s@),
            selection_in_range(s@),
            app_invariant(s@),
    {
        let ghost orig = todos_view(todos@);
        let mut todos = todos;
        let mut i: usize = 0;
        while i < todos.len()
            invariant
                i <= todos.len(),
                todos_view(todos@).len() == orig.len(),
                forall|k: int| 0 <= k < i ==> todos_view(todos@)[k] == with_completion_date(#[trigger] orig[k]),
                forall|k: int| i <= k < orig.len() ==> todos_view(todos@)[k] == #[trigger] orig[k],
            decreases todos.len() - i,
        {
            assert(todos_view(todos@)[i as int] == todos[i as int]@);
            if todos[i].completed && todos[i].completed_at.is_none() {
                let d = todos[i].created_at.date();
                let ghost t0 = todos@;
                todos[i].completed_at = Some(d);
                proof {
                    assert(todos_view(todos@) =~= todos_view(t0).update(
                        i as int,
                        with_completion_date(orig[i as int]),
                    ));
                }
            }
            i = i + 1;
        }
        proof {
            assert(todos_view(todos@) =~= orig.map_values(|t: TodoView| with_completion_date(t)));
        }
        let mut groups = groups;
        let ghost g0 = groups@;
        if groups.len() == 0 {
            groups.push(Group::new("Inbox".to_owned()));
        }
        proof {
            if g0.len() > 0 {
                assert(groups@ == g0);
            }
        }
        let mut ids: Vec<u128> = Vec::new();
        let mut j: usize = 0;
        while j < groups.len()
            invariant
                j <= groups.len(),
                ids@ == group_ids(groups_view(groups@)).take(j as int),
            decreases groups.len() - j,
        {
            ids.push(groups[j].id);
            proof {
                assert(ids@ =~= group_ids(groups_view(groups@)).take(j + 1));
            }
            j = j + 1;
        }
        proof {
            assert(ids@ =~= group_ids(groups_view(groups@)));
        }
        let todos = retain_todos(todos, &ids, true);
        let mut state = AppState {
            groups,
            todos,
            selected_group_index: 0,
            selected_todo_index: 0,
            focused_panel: PanelFocus::Todos,
            filter: Filter::All,
            show_help: true,
            mode: Mode::Normal,
            input_buffer: String::new(),
            input_cursor: 0,
            status_message: None,
        };
        proof {
            let v = state@;
            assert((|t: TodoView| ids@.contains(t.group_id) == true) =~= (|t: TodoView|
                group_ids(v.groups).contains(t.group_id)));
            assert(v.todos == loaded_todos(orig, v.groups));
            lemma_first_index_is(group_ids(v.groups), v.groups[0].id, 0);
            let s1 = v.with_group_selected(v.selected_group_id());
            assert(s1 =~= v);
            if v.visible().len() > 0 {
                lemma_first_index_is(v.visible_ids(), v.visible_ids()[0], 0);
            }
        }
        state.normalize_selection();
        proof {
            assert(state@ =~= initial_view(state@.groups, loaded_todos(orig, state@.groups)));
            lemma_filter_kept(
                orig.map_values(|t: TodoView| with_completion_date(t)),
                |t: TodoView| group_ids(state@.groups).contains(t.group_id),
            );
        }
        state
    }
}

/// Applies a key of one of the dialogs.
fn handle_modal_mode(action: Action, state: &mut AppState, fresh: Fresh) -> (cmd: AppCommand)
    requires
        !(old(state).mode is Normal),
        step_fits(old(state)@, action),
    ensures
        (final(state)@, cmd) == step(old(state)@, action, fresh),
{
    match state.mode {
        Mode::AddingTodo | Mode::EditingTodo | Mode::AddingGroup | Mode::EditingGroup => {
            handle_text_input_modal(action, state, fresh)
        },
        Mode::ConfirmDeleteTodo | Mode::ConfirmDeleteGroup => {
            handle_confirm_delete_modal(action, state)
        },
        Mode::Normal => AppCommand::Nothing,
    }
}

/// Applies one user action, taking the identifier and time that a new group
/// or todo, or a completion date, needs from `fresh`; returns what the app's
/// loop must do next.
pub fn dispatch_with(action: Action, state: &mut AppState, fresh: Fresh) -> (cmd: AppCommand)
    requires
        step_fits(old(state)@, action),
    ensures
        (final(state)@, cmd) == step(old(state)@, action, fresh),
        keeps_promises(old(state)@, action, final(state)@, cmd),
        app_invariant(old(state)@) ==> app_invariant(final(state)@),
{
    proof {
        law_step_keeps_promises(state@, action, fresh);
        if app_invariant(state@) {
            law_invariant_kept(state@, action, fresh);
        }
    }
    match state.mode {
        Mode::Normal => handle_normal_mode(action, state, fresh),
        Mode::AddingTodo
        | Mode::EditingTodo
        | Mode::ConfirmDeleteTodo
        | Mode::AddingGroup
        | Mode::EditingGroup
        | Mode::ConfirmDeleteGroup => handle_modal_mode(action, state, fresh),
    }
}

/// Whether a step creates a group or todo or marks a todo done: only then
/// does it read the identifier and time it is given.
pub open spec fn uses_fresh(s: AppView, a: Action) -> bool {
    ||| s.mode is Normal && a is ToggleSelected && s.focus == PanelFocus::Todos
        && s.selected_todo() is Some
    ||| s.mode is AddingGroup && a is Submit && trimmed(s.input).len() > 0
    ||| s.mode is AddingTodo && a is Submit && trimmed(s.input).len() > 0
        && s.selected_group_id() is Some
}

/// Applies one user action; a step that creates a group or todo, or marks a
/// todo done, draws a random new identifier and reads the clock for it.
/// Returns what the app's loop must do next.
pub fn dispatch(action: Action, state: &mut AppState) -> (cmd: AppCommand)
    requires
        step_fits(old(state)@, action),
    ensures
        exists|f: Fresh|
            is_v4_id(f.id) && f.now.secs_of_day < 86400 && f.now.nanos < 2_000_000_000
                && f.now.days_from_ce >= 719_163 && (final(state)@, cmd) == step(
                old(state)@,
                action,
                f,
            ),
        keeps_promises(old(state)@, action, final(state)@, cmd),
        app_invariant(old(state)@) ==> app_invariant(final(state)@),
{
    let draws = match state.mode {
        Mode::Normal => match action {
            Action::ToggleSelected => state.focused_panel == PanelFocus::Todos
                && state.selected_todo_index().is_some(),
            _ => false,
        },
        Mode::AddingGroup => match action {
            Action::Submit => !trim(&state.input_buffer).as_str().is_empty(),
            _ => false,
        },
        Mode::AddingTodo => match action {
            Action::Submit => !trim(&state.input_buffer).as_str().is_empty()
                && state.selected_group_id().is_some(),
            _ => false,
        },
        _ => false,
    };
    assert(draws == uses_fresh(state@, action));
    let fresh = if draws {
        Fresh::draw()
    } else {
        // This step reads neither value; any version-4 identifier will do.
        let unused: u128 = 0x4000_8000_0000_0000_0000;
        assert((unused >> 76u128) & 0xfu128 == 4 && (unused >> 62u128) & 0x3u128 == 2)
            by (bit_vector)
            requires
                unused == 0x4000_8000_0000_0000_0000u128,
        ;
        Fresh { id: unused, now: Timestamp { days_from_ce: 719_163, secs_of_day: 0, nanos: 0 } }
    };
    dispatch_with(action, state, fresh)
}

impl AppState {
    /// Whether `action` can be applied without a position running past the
    /// largest `usize`; [`dispatch`] asks this of its callers.
    pub fn can_dispatch(&self, action: Action) -> (b: bool)
        ensures
            b == step_fits(self@, action),
    {
        match self.mode {
            Mode::Normal => match action {
                Action::MoveDown => match self.focused_panel {
                    PanelFocus::Groups => self.groups.len() == 0 || self.selected_group_index
                        < usize::MAX,
                    PanelFocus::Todos => self.filtered_todo_indices().len() == 0
                        || self.selected_todo_index < usize::MAX,
                },
                _ => true,
            },
            Mode::AddingTodo | Mode::EditingTodo | Mode::AddingGroup | Mode::EditingGroup => {
                match action {
                    Action::InputChar(_) | Action::MoveCursorRight => self.input_cursor
                        < usize::MAX,
                    _ => true,
                }
            },
            Mode::ConfirmDeleteTodo | Mode::ConfirmDeleteGroup => true,
        }
    }
}

} // verus!
