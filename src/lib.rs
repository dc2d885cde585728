//! Live tail engine: the verified logic behind streaming the end of a
//! growing text file to a client as framed messages.

pub mod config;
pub mod error;
pub mod snapshot;
pub mod watcher;
pub mod frame;
pub mod session;
