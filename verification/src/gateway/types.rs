//! What the gateway sends, and what the channel makes of it.

use vstd::prelude::*;
use vstd::string::*;
use crate::discord::types::optional_text;
use crate::json::{Json, JsonTree};

verus! {

/// The name of the channel.
pub const CHANNEL_NAME: &'static str = "discord-gateway";

/// How the channel is configured.
#[derive(Debug, Clone)]
pub struct RealtimeGatewayConfig {
    pub token: String,
    /// The channels to listen to: all of them where none is named.
    pub mention_channel_ids: Vec<String>,
}

/// The envelope of a gateway payload, without the payload itself.
#[derive(Debug)]
pub struct GatewayEnvelope {
    pub op: i64,
    pub s: Option<i64>,
    pub t: Option<String>,
}

#[derive(Debug)]
pub struct HelloPayload {
    pub heartbeat_interval: u64,
}

#[derive(Debug)]
pub struct ReadyPayload {
    pub user: DiscordAuthor,
}

#[derive(Debug)]
pub struct DiscordMessageEvent {
    pub id: String,
    pub channel_id: String,
    pub guild_id: Option<String>,
    pub content: String,
    pub author: DiscordAuthor,
    pub mentions: Vec<DiscordMention>,
}

#[derive(Debug)]
pub struct DiscordAuthor {
    pub id: String,
    pub username: String,
    pub global_name: Option<String>,
    pub bot: bool,
}

#[derive(Debug)]
pub struct DiscordMention {
    pub id: String,
}

/// A message handed on to the agent.
#[derive(Debug)]
pub struct IncomingMessage {
    pub channel: String,
    pub user_id: String,
    pub user_name: Option<String>,
    pub content: String,
    pub metadata: Json,
}

/// What an [`IncomingMessage`] says.
pub struct IncomingView {
    pub channel: Seq<char>,
    pub user_id: Seq<char>,
    pub user_name: Option<Seq<char>>,
    pub content: Seq<char>,
    pub metadata: JsonTree,
}

impl View for IncomingMessage {
    type V = IncomingView;

    open spec fn view(&self) -> IncomingView {
        IncomingView {
            channel: self.channel@,
            user_id: self.user_id@,
            user_name: optional_text(self.user_name),
            content: self.content@,
            metadata: self.metadata.tree(),
        }
    }
}

/// What goes wrong with a channel.
#[derive(Debug)]
pub enum ChannelError {
    StartupFailed { name: String, reason: String },
    SendFailed { name: String, reason: String },
    Http(String),
    HealthCheckFailed { name: String },
}

/// What a [`ChannelError`] says.
pub enum ChannelErrorView {
    StartupFailed { name: Seq<char>, reason: Seq<char> },
    SendFailed { name: Seq<char>, reason: Seq<char> },
    Http(Seq<char>),
    HealthCheckFailed { name: Seq<char> },
}

impl View for ChannelError {
    type V = ChannelErrorView;

    open spec fn view(&self) -> ChannelErrorView {
        match self {
            ChannelError::StartupFailed { name, reason } => ChannelErrorView::StartupFailed {
                name: name@,
                reason: reason@,
            },
            ChannelError::SendFailed { name, reason } => ChannelErrorView::SendFailed {
                name: name@,
                reason: reason@,
            },
            ChannelError::Http(reason) => ChannelErrorView::Http(reason@),
            ChannelError::HealthCheckFailed { name } => ChannelErrorView::HealthCheckFailed {
                name: name@,
            },
        }
    }
}

/// What a message says is what its fields hold.
pub proof fn incoming_messages_say_what_they_hold(message: IncomingMessage)
    ensures
        message@.channel == message.channel@,
        message@.user_id == message.user_id@,
        message@.user_name == optional_text(message.user_name),
        message@.content == message.content@,
        message@.metadata == message.metadata@,
{
}

/// What an error says is what its fields hold.
pub proof fn errors_say_what_they_hold(error: ChannelError)
    ensures
        match error {
            ChannelError::StartupFailed { name, reason } => error@ == (
            ChannelErrorView::StartupFailed { name: name@, reason: reason@ }),
            ChannelError::SendFailed { name, reason } => error@ == (
            ChannelErrorView::SendFailed { name: name@, reason: reason@ }),
            ChannelError::Http(reason) => error@ == ChannelErrorView::Http(reason@),
            ChannelError::HealthCheckFailed { name } => error@ == (
            ChannelErrorView::HealthCheckFailed { name: name@ }),
        },
{
}

} // verus!
