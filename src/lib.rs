//! A task list: an in-memory task store, the error taxonomy with its
//! transport status codes, the mutation dispatcher and the query
//! synchronizer that merges pending submissions into the displayed list.
pub mod errors;
pub mod store;
pub mod sync;
pub mod query;
pub mod api;
pub mod todos;
