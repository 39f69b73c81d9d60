//! A chat client's session core: the wire codec, the session state machine
//! and the relay that carries inbound frames to it.

pub mod json;
pub mod relay;
pub mod session;
pub mod wire;
