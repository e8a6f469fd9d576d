# todo

A keyboard-first todo list for the terminal: groups of todos, a filter
(all / open / done), dialogs to add, edit and delete, and a JSON data file.

- `src/` is the verified library (Verus). `app.rs` holds the state and the step
  function `dispatch`, specified by `step` over a mathematical view of the state;
  `input.rs` maps keys to actions; `text.rs` edits a line by character position
  and trims it; `models.rs` holds groups, todos and the filter; `fresh.rs` draws
  identifiers (uuid) and reads the clock (chrono); `storage.rs` holds the file's
  contents, where the data file lives, and when a failed read is no error;
  `laws.rs` proves what holds across steps.
- `app/` is the terminal program: JSON file I/O with serde, drawing with
  ratatui, key events from crossterm, and the loop that calls `dispatch`.
