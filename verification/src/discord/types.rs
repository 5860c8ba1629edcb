//! What Discord sends, and what the channel makes of it.

use vstd::prelude::*;
use vstd::string::*;
use crate::json::Json;

verus! {

/// The text of an optional string.
pub open spec fn optional_text(s: Option<String>) -> Option<Seq<char>> {
    match s {
        Some(text) => Some(text@),
        None => None,
    }
}

/// An interaction that Discord posts to the webhook.
#[derive(Debug)]
pub struct DiscordInteraction {
    /// Kind of interaction: 1 is a ping, 2 a slash command, 3 a message component.
    pub interaction_type: u8,
    /// Interaction ID.
    pub id: String,
    /// Application ID.
    pub application_id: String,
    /// Guild ID, where the interaction comes from a server.
    pub guild_id: Option<String>,
    /// Channel ID.
    pub channel_id: Option<String>,
    /// The member, where the interaction comes from a server.
    pub member: Option<DiscordMember>,
    /// The user, where the interaction comes from a direct message.
    pub user: Option<DiscordUser>,
    /// The slash command.
    pub data: Option<DiscordCommandData>,
    /// The message that a component belongs to.
    pub message: Option<DiscordMessage>,
    /// Token for responding.
    pub token: String,
}

#[derive(Debug)]
pub struct DiscordMember {
    pub user: DiscordUser,
    pub nick: Option<String>,
}

#[derive(Debug)]
pub struct DiscordUser {
    pub id: String,
    pub username: String,
    pub global_name: Option<String>,
}

#[derive(Debug)]
pub struct DiscordCommandData {
    pub id: String,
    pub name: String,
    pub options: Option<Vec<DiscordCommandOption>>,
}

#[derive(Debug)]
pub struct DiscordCommandOption {
    pub name: String,
    pub value: Json,
}

#[derive(Debug)]
pub struct DiscordMessage {
    pub id: String,
    pub content: String,
    pub channel_id: String,
    pub author: DiscordUser,
}

/// A message read from a channel.
#[derive(Debug)]
pub struct DiscordChannelMessage {
    pub id: String,
    pub content: String,
    pub channel_id: String,
    pub author: DiscordChannelAuthor,
    pub mentions: Vec<DiscordUser>,
    pub webhook_id: Option<String>,
}

#[derive(Debug)]
pub struct DiscordChannelAuthor {
    pub id: String,
    pub username: String,
    pub global_name: Option<String>,
    pub bot: bool,
}

/// What is kept with an emitted message, so that the answer finds its way back.
#[derive(Debug)]
pub struct DiscordMessageMetadata {
    /// Discord channel ID.
    pub channel_id: String,
    /// Interaction ID for followups.
    pub interaction_id: Option<String>,
    /// Interaction token for responding.
    pub token: Option<String>,
    /// Application ID.
    pub application_id: Option<String>,
    /// The message that mentions the bot, where polling found one.
    pub source_message_id: Option<String>,
    /// Thread ID, for forum threads.
    pub thread_id: Option<String>,
}

/// A message handed on to the agent.
#[derive(Debug)]
pub struct EmittedMessage {
    pub user_id: String,
    pub user_name: Option<String>,
    pub content: String,
    pub thread_id: Option<String>,
    pub metadata: DiscordMessageMetadata,
}

/// What [`DiscordMessageMetadata`] says.
pub struct MetadataView {
    pub channel_id: Seq<char>,
    pub interaction_id: Option<Seq<char>>,
    pub token: Option<Seq<char>>,
    pub application_id: Option<Seq<char>>,
    pub source_message_id: Option<Seq<char>>,
    pub thread_id: Option<Seq<char>>,
}

/// What [`EmittedMessage`] says.
pub struct EmittedView {
    pub user_id: Seq<char>,
    pub user_name: Option<Seq<char>>,
    pub content: Seq<char>,
    pub thread_id: Option<Seq<char>>,
    pub metadata: MetadataView,
}

impl View for DiscordMessageMetadata {
    type V = MetadataView;

    open spec fn view(&self) -> MetadataView {
        MetadataView {
            channel_id: self.channel_id@,
            interaction_id: optional_text(self.interaction_id),
            token: optional_text(self.token),
            application_id: optional_text(self.application_id),
            source_message_id: optional_text(self.source_message_id),
            thread_id: optional_text(self.thread_id),
        }
    }
}

impl View for EmittedMessage {
    type V = EmittedView;

    open spec fn view(&self) -> EmittedView {
        EmittedView {
            user_id: self.user_id@,
            user_name: optional_text(self.user_name),
            content: self.content@,
            thread_id: optional_text(self.thread_id),
            metadata: self.metadata@,
        }
    }
}

/// The name to show for a user: the global name, or the user name where there is none.
pub open spec fn shown_name(global_name: Option<Seq<char>>, username: Seq<char>) -> Seq<char> {
    match global_name {
        Some(name) => if name.len() > 0 {
            name
        } else {
            username
        },
        None => username,
    }
}

/// The name to show for a user.
pub fn display_name(global_name: &Option<String>, username: &String) -> (r: String)
    ensures
        r@ == shown_name(optional_text(*global_name), username@),
{
    match global_name {
        Some(name) => if name.as_str().is_empty() {
            username.clone()
        } else {
            name.clone()
        },
        None => username.clone(),
    }
}

/// What a message and its metadata say is what their fields hold.
pub proof fn messages_say_what_they_hold(message: EmittedMessage, text: String)
    ensures
        optional_text(Some(text)) == Some(text@),
        optional_text(None) is None,
        message@.user_id == message.user_id@,
        message@.user_name == optional_text(message.user_name),
        message@.content == message.content@,
        message@.thread_id == optional_text(message.thread_id),
        message@.metadata == message.metadata@,
        message.metadata@.channel_id == message.metadata.channel_id@,
        message.metadata@.interaction_id == optional_text(message.metadata.interaction_id),
        message.metadata@.token == optional_text(message.metadata.token),
        message.metadata@.application_id == optional_text(message.metadata.application_id),
        message.metadata@.source_message_id == optional_text(message.metadata.source_message_id),
        message.metadata@.thread_id == optional_text(message.metadata.thread_id),
{
}

/// The name to show is the global name where it has a character, and else the user name.
pub proof fn names_are_global_where_there_is_one(
    global_name: Option<String>,
    username: Seq<char>,
)
    ensures
        crate::plain::is_name(
            Some(shown_name(optional_text(global_name), username)),
            global_name,
            username,
        ),
{
    match global_name {
        Some(global) => {
            if global@.len() == 0 {
                assert(global@ =~= Seq::<char>::empty());
            }
        },
        None => {},
    }
}

} // verus!
