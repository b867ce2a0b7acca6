//! The wire protocol: the messages and their JSON records, the binary frames
//! and the session state machine.

pub mod client;
pub mod codec;
pub mod json;
pub mod messages;
pub mod session;
