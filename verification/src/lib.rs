//! Protocol core of a text chat client: the block-cipher codec, the wire
//! envelope, the per-sender colour registry, the conversation builder and
//! the session state machine. All of it is pure: a front end performs the
//! socket reads and writes that the state machine asks for.

pub mod text;
pub mod cipher;
pub mod envelope;
pub mod conversation;
pub mod session;
pub mod welcome;
pub mod chat;
pub mod orchestrator;
pub mod client;
