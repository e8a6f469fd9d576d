//! A keyboard-driven todo list: groups of todos, a filter, text dialogs, and
//! the step function that turns each user action into the next state and a
//! request to save or quit.
pub mod fresh;
pub mod models;
pub mod text;
pub mod app;
pub mod input;
pub mod storage;
pub mod laws;
pub mod todo_laws;
