//! What the data file holds, and the one decision about reading it that is
//! not I/O: a missing file is no error.
use vstd::prelude::*;

use std::io::{Error, ErrorKind};

use crate::models::{Group, Todo};

verus! {

#[verifier::external_type_specification]
#[verifier::external_body]
pub struct ExIoError(Error);

/// What the data file holds.
#[derive(Debug, Clone, PartialEq, Eq)]
pub struct AppData {
    pub groups: Vec<Group>,
    pub todos: Vec<Todo>,
}

/// Whether the kind of an I/O error (`std::io::Error::kind`) is
/// `ErrorKind::NotFound`. The kind is fixed when the error is made, so the
/// answer depends on the error alone.
pub uninterp spec fn error_is_not_found(err: Error) -> bool;

/// Whether an I/O error says that a file was not found, through
/// `std::io::Error::kind`; the contract claims only that the answer is the
/// one fixed by the error, [`error_is_not_found`].
#[verifier::external_body]
fn is_not_found(err: &Error) -> (b: bool)
    ensures
        b == error_is_not_found(*err),
{
    matches!(err.kind(), ErrorKind::NotFound)
}

/// What reading a file comes to once it is known whether its error only says
/// that the file was not found: success if so, the error itself otherwise.
pub fn ignore_when_not_found(not_found: bool, err: Error) -> (r: Result<(), Error>)
    ensures
        not_found ==> r is Ok,
        !not_found ==> (r matches Err(e) && e == err),
{
    if not_found {
        Ok(())
    } else {
        Err(err)
    }
}

/// Success when the error only says that the file was not found; the error
/// itself otherwise.
pub fn ignore_if_not_found(err: Error) -> (r: Result<(), Error>)
    ensures
        r is Ok <==> error_is_not_found(err),
        r matches Err(e) ==> e == err,
{
    let not_found = is_not_found(&err);
    ignore_when_not_found(not_found, err)
}

/// The path components under which the data file lives: inside the
/// platform's data directory, `simple-todo-tui/todos.json`; without one,
/// `todos.json` in the working directory.
pub fn data_file_components(data_dir_found: bool) -> (parts: Vec<&'static str>)
    ensures
        data_dir_found ==> parts@.len() == 2 && parts@[0]@ == "simple-todo-tui"@ && parts@[1]@
            == "todos.json"@,
        !data_dir_found ==> parts@.len() == 1 && parts@[0]@ == "todos.json"@,
{
    let mut parts: Vec<&'static str> = Vec::new();
    if data_dir_found {
        parts.push("simple-todo-tui");
    }
    parts.push("todos.json");
    parts
}

} // verus!
