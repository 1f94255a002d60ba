//! A persistent remote-execution channel protocol: command escaping and
//! sentinel framing, the per-channel exchange and bootstrap state machines,
//! the registry that owns live sessions, and the typed outer operations.

pub mod channel;
pub mod codec;
pub mod decode;
pub mod registry;
pub mod request;
pub mod text;
