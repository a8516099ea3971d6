//! What the operations promise their callers.
//!
//! Each law takes what a call was given and what it returned, and says what
//! holds between them, or how the results of several calls are related.

pub mod display;
pub mod heat;
pub mod i2c;
pub mod messages;
pub mod numbers;
pub mod packets;
pub mod settings;
pub mod sockets;
pub mod subscribers;
