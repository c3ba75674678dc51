//! Building and reading the messages of a small local file-transfer protocol.
//!
//! A sender asks a receiver whether it may send a file (`Ask`), the receiver
//! answers (`AskOk` / `AskDeny`), the sender ships the file (`Data`) and the
//! receiver confirms (`DataRecvd`); `exchange` holds both sides' steps.
//! Every message travels in a frame: four big-endian length bytes followed by
//! the message bytes.

pub mod comms;
pub mod exchange;
pub mod frame;
pub mod message;
pub mod peer;

pub use message::{AskInfo, Message, MessageType};
