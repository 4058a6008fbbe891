//! Agent sessions: what a session export holds and how the search tool is driven.

pub mod client;
pub mod client_laws;
pub mod command;
pub mod command_laws;
pub mod decode;
pub mod export_laws;
pub mod laws;
pub mod marker_laws;
pub mod markers;
pub mod record_laws;
pub mod session;
