//! The channel that answers webhook interactions and polls for mentions.

pub mod bot_id;
pub mod config;
pub mod interaction;
pub mod mentions;
pub mod polling;
pub mod reply;
pub mod routing;
pub mod truncate;
pub mod types;
