//! Interactions that Discord posts to the webhook.

use vstd::prelude::*;
use vstd::string::*;
use vstd::utf8::*;
use crate::discord::reply::{interaction_webhook, webhook_url};
use crate::discord::types::{
    display_name, optional_text, shown_name, DiscordCommandOption, DiscordInteraction,
    DiscordMessage, DiscordMessageMetadata, DiscordUser, EmittedMessage, EmittedView, MetadataView,
};
use crate::http::{
    content_type_json, content_type_tree, json_bytes, json_reply, json_response, text_from_utf8,
    to_json_bytes, HttpRequest, OutgoingHttpResponse, RequestView, ResponseView,
};
use crate::json::{add_entry, integer_tree, Json, JsonTree};
use crate::serde_bridge::json_text;
use crate::text::joined;

verus! {

/// The user who acts: the member in a server, the user in a direct message.
pub open spec fn acting_user(interaction: DiscordInteraction) -> Option<DiscordUser> {
    match interaction.member {
        Some(member) => Some(member.user),
        None => interaction.user,
    }
}

/// The ID of the user who acts: empty where there is none.
pub open spec fn acting_id(interaction: DiscordInteraction) -> Seq<char> {
    match acting_user(interaction) {
        Some(user) => user.id@,
        None => Seq::empty(),
    }
}

/// The name of the user who acts: empty where there is none.
pub open spec fn acting_name(interaction: DiscordInteraction) -> Seq<char> {
    match acting_user(interaction) {
        Some(user) => shown_name(optional_text(user.global_name), user.username@),
        None => Seq::empty(),
    }
}

/// An option of a slash command: its name and its value as JSON.
pub open spec fn option_text(option: DiscordCommandOption) -> Seq<char> {
    option.name@ + ": "@ + json_text(option.value.tree())
}

/// The options of a slash command, separated by commas.
pub open spec fn options_text(options: Seq<DiscordCommandOption>) -> Seq<char>
    decreases options.len(),
{
    if options.len() == 0 {
        Seq::empty()
    } else if options.len() == 1 {
        option_text(options[0])
    } else {
        options_text(options.drop_last()) + ", "@ + option_text(options.last())
    }
}

/// A slash command as text.
pub open spec fn command_text(interaction: DiscordInteraction) -> Seq<char> {
    match interaction.data {
        Some(data) => match data.options {
            Some(options) => "/"@ + data.name@ + " "@ + options_text(options@),
            None => "/"@ + data.name@,
        },
        None => "/"@,
    }
}

/// What is kept with a message that comes from an interaction.
pub open spec fn interaction_metadata(
    interaction: DiscordInteraction,
    channel_id: Seq<char>,
) -> MetadataView {
    MetadataView {
        channel_id,
        interaction_id: Some(interaction.id@),
        token: Some(interaction.token@),
        application_id: Some(interaction.application_id@),
        source_message_id: None,
        thread_id: None,
    }
}

/// What is handed on for a slash command.
pub open spec fn command_event(interaction: DiscordInteraction) -> EmittedView {
    EmittedView {
        user_id: acting_id(interaction),
        user_name: Some(acting_name(interaction)),
        content: command_text(interaction),
        thread_id: None,
        metadata: interaction_metadata(
            interaction,
            match interaction.channel_id {
                Some(id) => id@,
                None => Seq::empty(),
            },
        ),
    }
}

/// What is handed on for a message component.
pub open spec fn component_event(
    interaction: DiscordInteraction,
    message: DiscordMessage,
) -> EmittedView {
    EmittedView {
        user_id: acting_id(interaction),
        user_name: Some(acting_name(interaction)),
        content: "[Button clicked] "@ + message.content@,
        thread_id: None,
        metadata: interaction_metadata(interaction, message.channel_id@),
    }
}

/// What is handed on for an interaction, if anything.
pub open spec fn interaction_event(interaction: DiscordInteraction) -> Option<EmittedView> {
    if interaction.interaction_type == 2 {
        Some(command_event(interaction))
    } else if interaction.interaction_type == 3 {
        match interaction.message {
            Some(message) => Some(component_event(interaction, message)),
            None => None,
        }
    } else {
        None
    }
}

/// `{"error": reason}`.
pub open spec fn error_tree(reason: Seq<char>) -> JsonTree {
    JsonTree::Object(Map::empty().insert("error"@, JsonTree::Text(reason)))
}

/// `{"type": kind}`.
pub open spec fn callback_tree(kind: int) -> JsonTree {
    JsonTree::Object(Map::empty().insert("type"@, integer_tree(kind)))
}

/// The answer that puts off the real one.
pub open spec fn thinking_tree() -> JsonTree {
    JsonTree::Object(
        Map::empty().insert("type"@, integer_tree(5)).insert(
            "data"@,
            JsonTree::Object(
                Map::empty().insert("content"@, JsonTree::Text("🤔 Thinking..."@)),
            ),
        ),
    )
}

/// The answer to an interaction: a pong to a ping, a deferred message to a slash
/// command, and a deferred update to anything else.
pub open spec fn interaction_reply(interaction_type: u8) -> ResponseView {
    if interaction_type == 1 {
        json_reply(200, callback_tree(1))
    } else if interaction_type == 2 {
        json_reply(200, thinking_tree())
    } else {
        json_reply(200, callback_tree(6))
    }
}

/// The message that tells the user of a command that could not be handed on.
pub open spec fn failure_notice_tree() -> JsonTree {
    JsonTree::Object(
        Map::empty().insert(
            "content"@,
            JsonTree::Text("❌ Internal Error: Failed to process command metadata."@),
        ).insert("flags"@, integer_tree(64)),
    )
}

/// The request that tells the user of a command that could not be handed on.
pub open spec fn failure_notice(interaction: DiscordInteraction) -> RequestView {
    RequestView {
        method: "POST"@,
        url: webhook_url(interaction.application_id@, interaction.token@),
        headers_json: json_text(content_type_tree()),
        body: Some(json_bytes(failure_notice_tree())),
        timeout_ms: None,
    }
}

/// What an interaction comes to.
#[derive(Debug)]
pub struct InteractionOutcome {
    /// The message to hand on, if any.
    pub emitted: Option<EmittedMessage>,
    /// The request to send where the message cannot be handed on, if any.
    pub on_failure: Option<HttpRequest>,
    /// The answer to Discord.
    pub response: OutgoingHttpResponse,
}

/// The view of an optional message.
pub open spec fn optional_event(emitted: Option<EmittedMessage>) -> Option<EmittedView> {
    match emitted {
        Some(message) => Some(message@),
        None => None,
    }
}

/// The view of an optional request.
pub open spec fn optional_request(request: Option<HttpRequest>) -> Option<RequestView> {
    match request {
        Some(r) => Some(r@),
        None => None,
    }
}

fn error_response(reason: &str) -> (r: OutgoingHttpResponse)
    ensures
        r@ == json_reply(400, error_tree(reason@)),
{
    let mut fields: Vec<(String, Json)> = Vec::new();
    add_entry(&mut fields, "error", Json::text(reason));
    json_response(400, &Json::Object(fields))
}

fn callback_response(kind: i64) -> (r: OutgoingHttpResponse)
    ensures
        r@ == json_reply(200, callback_tree(kind as int)),
{
    let mut fields: Vec<(String, Json)> = Vec::new();
    add_entry(&mut fields, "type", Json::integer(kind));
    json_response(200, &Json::Object(fields))
}

fn thinking_response() -> (r: OutgoingHttpResponse)
    ensures
        r@ == json_reply(200, thinking_tree()),
{
    let mut data: Vec<(String, Json)> = Vec::new();
    add_entry(&mut data, "content", Json::text("🤔 Thinking..."));
    let mut fields: Vec<(String, Json)> = Vec::new();
    add_entry(&mut fields, "type", Json::integer(5));
    add_entry(&mut fields, "data", Json::Object(data));
    json_response(200, &Json::Object(fields))
}

/// The text of a request body, or the answer to one that is no text.
pub fn body_text(body: &[u8]) -> (r: Result<String, OutgoingHttpResponse>)
    ensures
        r is Ok == valid_utf8(body@),
        match r {
            Ok(text) => text@ == decode_utf8(body@),
            Err(response) => response@ == json_reply(400, error_tree("Invalid UTF-8 body"@)),
        },
{
    match text_from_utf8(body) {
        Some(text) => Ok(text.to_owned()),
        None => Err(error_response("Invalid UTF-8 body")),
    }
}

/// Handles an interaction, or what could not be read as one.
pub fn on_http_request(read: Option<&DiscordInteraction>) -> (r: InteractionOutcome)
    ensures
        match read {
            Some(interaction) => {
                &&& optional_event(r.emitted) == interaction_event(*interaction)
                &&& optional_request(r.on_failure) == if interaction.interaction_type == 2 {
                    Some(failure_notice(*interaction))
                } else {
                    None
                }
                &&& r.response@ == interaction_reply(interaction.interaction_type)
            },
            None => {
                &&& r.emitted is None
                &&& r.on_failure is None
                &&& r.response@ == json_reply(400, error_tree("Invalid interaction"@))
            },
        },
{
    let interaction = match read {
        Some(interaction) => interaction,
        None => {
            return InteractionOutcome {
                emitted: None,
                on_failure: None,
                response: error_response("Invalid interaction"),
            };
        },
    };
    if interaction.interaction_type == 1 {
        InteractionOutcome { emitted: None, on_failure: None, response: callback_response(1) }
    } else if interaction.interaction_type == 2 {
        InteractionOutcome {
            emitted: Some(handle_slash_command(interaction)),
            on_failure: Some(metadata_failure_notice(interaction)),
            response: thinking_response(),
        }
    } else if interaction.interaction_type == 3 {
        let emitted = match &interaction.message {
            Some(message) => Some(handle_message_component(interaction, message)),
            None => None,
        };
        InteractionOutcome { emitted, on_failure: None, response: callback_response(6) }
    } else {
        InteractionOutcome { emitted: None, on_failure: None, response: callback_response(6) }
    }
}

fn user_of(interaction: &DiscordInteraction) -> (r: Option<&DiscordUser>)
    ensures
        acting_user(*interaction) == match r {
            Some(user) => Some(*user),
            None => None,
        },
{
    match &interaction.member {
        Some(member) => Some(&member.user),
        None => match &interaction.user {
            Some(user) => Some(user),
            None => None,
        },
    }
}

fn user_id_of(interaction: &DiscordInteraction) -> (r: String)
    ensures
        r@ == acting_id(*interaction),
{
    match user_of(interaction) {
        Some(user) => user.id.clone(),
        None => String::new(),
    }
}

fn user_name_of(interaction: &DiscordInteraction) -> (r: String)
    ensures
        r@ == acting_name(*interaction),
{
    match user_of(interaction) {
        Some(user) => display_name(&user.global_name, &user.username),
        None => String::new(),
    }
}

fn metadata_of(interaction: &DiscordInteraction, channel_id: String) -> (r: DiscordMessageMetadata)
    ensures
        r@ == interaction_metadata(*interaction, channel_id@),
{
    DiscordMessageMetadata {
        channel_id,
        interaction_id: Some(interaction.id.clone()),
        token: Some(interaction.token.clone()),
        application_id: Some(interaction.application_id.clone()),
        source_message_id: None,
        thread_id: None,
    }
}

/// The options of a slash command, separated by commas.
fn join_options(options: &Vec<DiscordCommandOption>) -> (r: String)
    ensures
        r@ == options_text(options@),
{
    let mut out = String::new();
    let mut i: usize = 0;
    assert(options@.take(0) == Seq::<DiscordCommandOption>::empty());
    while i < options.len()
        invariant
            i <= options@.len(),
            out@ == options_text(options@.take(i as int)),
        decreases options@.len() - i,
    {
        let option = &options[i];
        let mut text = joined(option.name.as_str(), ": ");
        text.append(option.value.to_text().as_str());
        let ghost done = options@.take(i + 1);
        assert(done.drop_last() == options@.take(i as int));
        if i == 0 {
            out = text;
        } else {
            out.append(", ");
            out.append(text.as_str());
        }
        i = i + 1;
    }
    assert(options@.take(i as int) == options@);
    out
}

/// What is handed on for a slash command.
pub fn handle_slash_command(interaction: &DiscordInteraction) -> (r: EmittedMessage)
    ensures
        r@ == command_event(*interaction),
{
    let content = match &interaction.data {
        Some(data) => {
            let mut content = joined("/", data.name.as_str());
            match &data.options {
                Some(options) => {
                    content.append(" ");
                    content.append(join_options(options).as_str());
                },
                None => {},
            }
            content
        },
        None => "/".to_owned(),
    };
    let channel_id = match &interaction.channel_id {
        Some(id) => id.clone(),
        None => String::new(),
    };
    EmittedMessage {
        user_id: user_id_of(interaction),
        user_name: Some(user_name_of(interaction)),
        content,
        thread_id: None,
        metadata: metadata_of(interaction, channel_id),
    }
}

/// What is handed on for a message component.
pub fn handle_message_component(
    interaction: &DiscordInteraction,
    message: &DiscordMessage,
) -> (r: EmittedMessage)
    ensures
        r@ == component_event(*interaction, *message),
{
    EmittedMessage {
        user_id: user_id_of(interaction),
        user_name: Some(user_name_of(interaction)),
        content: joined("[Button clicked] ", message.content.as_str()),
        thread_id: None,
        metadata: metadata_of(interaction, message.channel_id.clone()),
    }
}

/// The request that tells the user of a command that could not be handed on.
pub fn metadata_failure_notice(interaction: &DiscordInteraction) -> (r: HttpRequest)
    ensures
        r@ == failure_notice(*interaction),
{
    let mut notice: Vec<(String, Json)> = Vec::new();
    add_entry(
        &mut notice,
        "content",
        Json::text("❌ Internal Error: Failed to process command metadata."),
    );
    add_entry(&mut notice, "flags", Json::integer(64));
    HttpRequest {
        method: "POST".to_owned(),
        url: interaction_webhook(interaction.application_id.as_str(), interaction.token.as_str()),
        headers_json: content_type_json(),
        body: Some(to_json_bytes(&Json::Object(notice))),
        timeout_ms: None,
    }
}

} // verus!
