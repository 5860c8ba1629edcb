//! The rules of an agent's channels to Discord, and of what its operators need not
//! approve.
//!
//! - [`approval_policy`]: which tool calls are approved without asking, and which are
//!   refused.
//! - [`discord`]: the channel that answers webhook interactions and polls for mentions.
//! - [`gateway`]: the channel that listens to Discord's gateway.
//! - [`json`], [`http`], [`text`], [`digits`]: the values that the rules are stated over.
//! - [`plain`]: the words in which the laws are stated.
//! - [`serde_bridge`]: what is taken on trust about `serde_json`.
//!
//! Nothing here reads or sends. Each function takes what was read and tells what to send,
//! to hand on or to store.

pub mod approval_policy;
pub mod digits;
pub mod discord;
pub mod gateway;
pub mod http;
pub mod json;
pub mod plain;
pub mod serde_bridge;
pub mod text;
