//! The records that the two backends and the registry exchange.

pub mod cloudflare;
pub mod kv;
