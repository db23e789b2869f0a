//! A small task manager library: tasks with an integer id, a title, an
//! optional description and a completion flag, kept in a local SQLite
//! database behind a verified interface.
//!
//! `tasks` holds the mathematical model of the store and the laws it obeys;
//! `parse` turns raw input lines into menu commands and task ids; `store`
//! wraps the database behind contracts over the model; `ops` ties parsing
//! and storage together, one function per interactive operation.

pub mod ops;
pub mod parse;
pub mod store;
pub mod tasks;
