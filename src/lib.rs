//! Turning highlight events into Kakoune ranges, compacting indent guidelines,
//! and the request messages exchanged with the daemon.

pub mod highlighting;
pub mod indent_guidelines;
pub mod queries;
pub mod request;
pub mod text;
