//! Client-side protocol engine for a group chat: the wire codec for the
//! frame envelope and chat entries, the roster reconciler, and the session
//! state machine that turns inbound frames into roster and log changes and
//! local actions into outbound frames.

pub mod scan;
pub mod wire;
pub mod encode;
pub mod decode;
pub mod roster;
pub mod chat;
pub mod roundtrip;
