//! A verified client core for driving a media player over its line-oriented
//! control protocol: the frame codec, the pending-request correlation table,
//! the dispatcher's routing step, and the process supervisor's lifecycle
//! decisions. The unverifiable edges — sockets, spawning, the runtime — live
//! outside this crate and hand plain values in and out.

pub mod client;
pub mod codec;
pub mod commands;
pub mod config;
pub mod events;
pub mod json;
pub mod pending;
pub mod process;
pub mod shell;
