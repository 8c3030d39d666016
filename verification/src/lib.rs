//! Browsing and editing key-value data that lives in one of two places: in
//! the state directory that a local emulator keeps below a project folder,
//! or behind a remote, paginated HTTP service. Both hold namespaces of keyed
//! JSON values.
//!
//! The library decides and computes; it reads no disk and sends no request.
//! A caller does that and hands in what it found as plain values:
//!
//! - [`local`] lists the namespaces of a folder from a walk through its
//!   state, and leads step by step through the update of a value and
//!   through the deletion of several keys as one unit of the catalog;
//!   [`local::store`] holds such a state in memory and says what these
//!   operations come to;
//! - [`remote`] builds the requests to the provider, reads its answers, and
//!   leads through the listing of an account's namespaces with their counts;
//! - [`gateway`] tells by a namespace id which of the two it belongs to;
//! - [`registry`] keeps the folders and the connections that are known;
//! - [`codec`] and [`json`] read and write the values themselves.

pub mod codec;
pub mod error;
pub mod gateway;
pub mod json;
pub mod local;
pub mod models;
pub mod registry;
pub mod remote;
pub mod settings;
pub mod text;
pub mod views;
