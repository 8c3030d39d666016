//! The remote backend: requests to the provider's HTTP interface and the
//! reading of its answers. Sending and receiving is the caller's part.

pub mod counts;
pub mod envelope;
pub mod request;
pub mod response;
pub mod survey;
