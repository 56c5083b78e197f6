//! An NSQ client library: the wire protocol (commands, frames, messages) and the
//! decisions that consumers, producers and connection pools take, each stated
//! and proved with Verus.

pub mod wire;
pub mod error;
pub mod protocol;
pub mod consumer;
pub mod connection;
pub mod lookup;
pub mod producer;
pub mod commands;
pub mod pool;
pub mod connection_pool;
