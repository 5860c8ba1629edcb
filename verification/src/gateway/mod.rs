//! The channel that listens to the gateway.

pub mod backoff;
pub mod channel;
pub mod laws;
pub mod lifecycle;
pub mod session;
pub mod types;
