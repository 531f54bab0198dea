//! A task tracker: an ordered list of tasks with stable identifiers,
//! and the JSON text in which the list is kept between runs.

pub mod text;
pub mod task;
pub mod ops;
pub mod store;
pub mod document;
pub mod persist;
pub mod menu;
