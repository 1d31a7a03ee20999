//! What holds of the library as its callers see it.
//!
//! Each law here speaks of calls of public functions: of what is passed to them and what
//! comes back, and of how the results of several calls relate.
pub mod building;
pub mod cells;
pub mod delays;
pub mod messages;
pub mod resources;
pub mod running;
pub mod sorting;
pub mod starting;
pub mod streams;
pub mod supervision;
pub mod tasks;
pub mod topics;
