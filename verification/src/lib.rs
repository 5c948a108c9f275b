//! A background-music daemon library: a verified playback engine with
//! resume-position bookkeeping, a track catalog, a length-prefixed IPC
//! wire format, and the decision logic of the server and client.

pub mod audio;
pub mod catalog;
pub mod config;
pub mod ipc;
pub mod laws;
pub mod util;
