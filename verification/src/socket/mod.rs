//! The gateway's bookkeeping and frame handling.

pub mod event;
pub mod server;
pub mod stats;
