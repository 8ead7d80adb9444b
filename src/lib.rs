//! Core of an HTTP reverse tunnel: wire protocol, input validation, content
//! rewriting, the rendezvous tables and the forwarder's reconnection rules.

pub mod constants;
pub mod encoding;
pub mod error_handling;
pub mod forwarder;
pub mod headers;
pub mod ids;
pub mod models;
pub mod protocol;
pub mod relay;
pub mod rewrite;
pub mod store;
pub mod text;
pub mod time;
pub mod validation;
