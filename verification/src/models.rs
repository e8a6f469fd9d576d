//! The records the app keeps (groups and todos), the todo filter and the
//! interaction modes.
use vstd::prelude::*;

use crate::fresh::{new_id, utc_now};

verus! {

/// A UTC instant, split the way the calendar needs it: the day (counted from
/// 0001-01-01 of the proleptic Gregorian calendar, that day being day 1), the
/// second within that day and the nanoseconds within that second (above
/// 999_999_999 only during a leap second).
#[derive(Debug, Clone, Copy, PartialEq, Eq, Structural)]
pub struct Timestamp {
    pub days_from_ce: i32,
    pub secs_of_day: u32,
    pub nanos: u32,
}

/// A calendar day, counted as in [`Timestamp`].
#[derive(Debug, Clone, Copy, PartialEq, Eq, Structural)]
pub struct Date {
    pub days_from_ce: i32,
}

impl Timestamp {
    /// The UTC calendar day of this instant.
    pub fn date(&self) -> (d: Date)
        ensures
            d == self.spec_date(),
    {
        Date { days_from_ce: self.days_from_ce }
    }

    pub open spec fn spec_date(self) -> Date {
        Date { days_from_ce: self.days_from_ce }
    }
}

/// A named list that todos belong to.
#[derive(Debug, Clone, PartialEq, Eq)]
pub struct Group {
    pub id: u128,
    pub name: String,
    pub created_at: Timestamp,
}

/// A task inside a group.
#[derive(Debug, Clone, PartialEq, Eq)]
pub struct Todo {
    pub id: u128,
    pub group_id: u128,
    pub title: String,
    pub completed: bool,
    pub created_at: Timestamp,
    pub completed_at: Option<Date>,
}

/// What a [`Group`] is, as a mathematical value.
#[verifier::ext_equal]
pub struct GroupView {
    pub id: u128,
    pub name: Seq<char>,
    pub created_at: Timestamp,
}

/// What a [`Todo`] is, as a mathematical value.
#[verifier::ext_equal]
pub struct TodoView {
    pub id: u128,
    pub group_id: u128,
    pub title: Seq<char>,
    pub completed: bool,
    pub created_at: Timestamp,
    pub completed_at: Option<Date>,
}

impl View for Group {
    type V = GroupView;

    open spec fn view(&self) -> GroupView {
        GroupView { id: self.id, name: self.name@, created_at: self.created_at }
    }
}

impl View for Todo {
    type V = TodoView;

    open spec fn view(&self) -> TodoView {
        TodoView {
            id: self.id,
            group_id: self.group_id,
            title: self.title@,
            completed: self.completed,
            created_at: self.created_at,
            completed_at: self.completed_at,
        }
    }
}

/// The views of a list of groups.
pub open spec fn groups_view(gs: Seq<Group>) -> Seq<GroupView> {
    gs.map_values(|g: Group| g@)
}

/// The views of a list of todos.
pub open spec fn todos_view(ts: Seq<Todo>) -> Seq<TodoView> {
    ts.map_values(|t: Todo| t@)
}

/// An identifier of the kind that `new_v4` hands out: version nibble 4 and
/// the RFC 4122 variant bits `10`.
pub open spec fn is_v4_id(id: u128) -> bool {
    &&& (id >> 76u128) & 0xfu128 == 4
    &&& (id >> 62u128) & 0x3u128 == 2
}

impl Group {
    /// A new group with the given name, a fresh random identifier and the
    /// current time as its creation time.
    pub fn new(name: String) -> (g: Group)
        ensures
            g.name@ == name@,
            is_v4_id(g.id),
            g.created_at.secs_of_day < 86400,
            g.created_at.nanos < 2_000_000_000,
            g.created_at.days_from_ce >= 719_163,
    {
        Group { id: new_id(), name, created_at: utc_now() }
    }
}

impl Todo {
    /// A new, open todo in the given group, with a fresh random identifier and
    /// the current time as its creation time.
    pub fn new(title: String, group_id: u128) -> (t: Todo)
        ensures
            t.title@ == title@,
            t.group_id == group_id,
            !t.completed,
            t.completed_at is None,
            is_v4_id(t.id),
            t.created_at.secs_of_day < 86400,
            t.created_at.nanos < 2_000_000_000,
            t.created_at.days_from_ce >= 719_163,
    {
        Todo {
            id: new_id(),
            group_id,
            title,
            completed: false,
            created_at: utc_now(),
            completed_at: None,
        }
    }
}

/// Which todos of the selected group the todo panel lists.
#[derive(Debug, Clone, Copy, PartialEq, Eq, Structural)]
pub enum Filter {
    All,
    Open,
    Done,
}

impl Filter {
    pub open spec fn spec_next(self) -> Filter {
        match self {
            Filter::All => Filter::Open,
            Filter::Open => Filter::Done,
            Filter::Done => Filter::All,
        }
    }

    /// The filter after this one in the cycle all, open, done, all, ...
    pub fn next(self) -> (f: Filter)
        ensures
            f == self.spec_next(),
    {
        match self {
            Filter::All => Filter::Open,
            Filter::Open => Filter::Done,
            Filter::Done => Filter::All,
        }
    }

    /// Whether a todo with the given completion flag passes this filter.
    pub open spec fn admits(self, completed: bool) -> bool {
        match self {
            Filter::All => true,
            Filter::Open => !completed,
            Filter::Done => completed,
        }
    }

    pub open spec fn spec_label(self) -> Seq<char> {
        match self {
            Filter::All => "all"@,
            Filter::Open => "open"@,
            Filter::Done => "done"@,
        }
    }

    /// The name the todo panel shows for this filter.
    pub fn label(self) -> (s: &'static str)
        ensures
            s@ == self.spec_label(),
    {
        match self {
            Filter::All => "all",
            Filter::Open => "open",
            Filter::Done => "done",
        }
    }
}

/// What the keyboard currently edits: the lists, or one of the dialogs.
#[derive(Debug, Clone, Copy, PartialEq, Eq, Structural)]
pub enum Mode {
    Normal,
    AddingTodo,
    EditingTodo,
    ConfirmDeleteTodo,
    AddingGroup,
    EditingGroup,
    ConfirmDeleteGroup,
}

impl Mode {
    /// The dialogs that edit a line of text.
    pub open spec fn is_text_input(self) -> bool {
        self is AddingTodo || self is EditingTodo || self is AddingGroup || self is EditingGroup
    }

    /// The dialogs that ask to confirm a deletion.
    pub open spec fn is_confirm_delete(self) -> bool {
        self is ConfirmDeleteTodo || self is ConfirmDeleteGroup
    }
}

impl Todo {
    /// The day the todo list shows beside a todo: for a completed todo its
    /// completion day, or the day it was created when that is unknown; none
    /// for an open todo.
    pub fn shown_date(&self) -> (d: Option<Date>)
        ensures
            d == (if self.completed {
                Some(
                    match self.completed_at {
                        Some(c) => c,
                        None => self.created_at.spec_date(),
                    },
                )
            } else {
                None
            }),
    {
        if self.completed {
            match self.completed_at {
                Some(c) => Some(c),
                None => Some(self.created_at.date()),
            }
        } else {
            None
        }
    }

    /// The check box the todo list shows before a todo's title.
    pub fn mark(&self) -> (m: &'static str)
        ensures
            m@ == (if self.completed { "[x]"@ } else { "[ ]"@ }),
    {
        if self.completed {
            "[x]"
        } else {
            "[ ]"
        }
    }
}

impl Filter {
    /// What the todo panel says when it lists nothing under this filter.
    pub fn empty_message(self) -> (m: &'static str)
        ensures
            m@ == (match self {
                Filter::All => "No todos in this group. Press 'a' to add one."@,
                _ => "No todos in this filter for selected group."@,
            }),
    {
        match self {
            Filter::All => "No todos in this group. Press 'a' to add one.",
            Filter::Open | Filter::Done => "No todos in this filter for selected group.",
        }
    }
}

} // verus!
