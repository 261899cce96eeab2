//! A process browser's logic: the filter over a process snapshot, the
//! ordering of the table, the UTF-8 search cursor, table navigation and the
//! layout decisions that the terminal front end acts on.

pub mod input;
pub mod layout;
pub mod rows;
pub mod search;
pub mod state;
pub mod text;
pub mod view;
