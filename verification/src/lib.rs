//! A modal task manager's core: lists of tasks, the application state that
//! the key bindings drive, the `.tasks.md` text format, and the line editor
//! used for typing names and descriptions.

pub mod keys;
pub mod line_editor;
pub mod serialisation;
pub mod task;
pub mod tasks_app;
mod text;
