//! The local backend: the state directory of the emulator below one root,
//! with its catalog database and its blob files. Reading and writing the
//! disk is the caller's part: a listing is made from what a walk through
//! the state found, and an update or a deletion names one step at a time
//! and takes what the step came to.

pub mod catalog;
pub mod delete;
pub mod laws;
pub mod listing;
pub mod store;
pub mod update;
