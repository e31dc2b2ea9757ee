//! Core logic of a TodoMVC application: the todo record, title
//! normalisation, the `todos` table with the operations that the
//! server functions perform on it, and the decisions taken by the
//! user interface.

pub mod todo;
pub mod rows;
pub mod table;
pub mod ui;
pub mod laws;
