//! Sending the agent's answer back to Discord.

use vstd::prelude::*;
use vstd::string::*;
use vstd::utf8::*;
use crate::digits::{decimal, decimal_text};
use crate::discord::truncate::{truncate_message, truncated};
use crate::discord::types::{DiscordMessageMetadata, MetadataView};
use crate::http::{
    content_type_json, content_type_tree, is_success, json_bytes, lossy_text, success,
    text_from_utf8_lossy, to_json_bytes, HttpRequest, HttpResponse, RequestView,
};
use crate::json::{add_entry, optional_tree, tree_field, Json, JsonTree};
use crate::plain;
use crate::serde_bridge::{json_text, parsed_json};
use crate::text::joined;

verus! {

/// The headers of a request in the bot's name. The host puts the token in place of the
/// placeholder.
pub open spec fn auth_headers_tree(include_content_type: bool) -> JsonTree {
    let authorization = Map::empty().insert(
        "Authorization"@,
        JsonTree::Text("Bot {DISCORD_BOT_TOKEN}"@),
    );
    if include_content_type {
        JsonTree::Object(
            authorization.insert("Content-Type"@, JsonTree::Text("application/json"@)),
        )
    } else {
        JsonTree::Object(authorization)
    }
}

/// The message that an answer posts: its text, its embeds if there are any, and the
/// message it refers to, whose author is mentioned.
pub open spec fn answer_tree(
    content: Seq<char>,
    embeds: Option<JsonTree>,
    source_message_id: Option<Seq<char>>,
) -> JsonTree {
    let plain = Map::empty().insert("content"@, JsonTree::Text(content));
    let embedded = match embeds {
        Some(value) => plain.insert("embeds"@, value),
        None => plain,
    };
    JsonTree::Object(
        match source_message_id {
            Some(id) => embedded.insert(
                "message_reference"@,
                JsonTree::Object(Map::empty().insert("message_id"@, JsonTree::Text(id))),
            ).insert(
                "allowed_mentions"@,
                JsonTree::Object(Map::empty().insert("replied_user"@, JsonTree::Bool(true))),
            ),
            None => embedded,
        },
    )
}

/// Where the answer to an interaction goes.
pub open spec fn webhook_url(application_id: Seq<char>, token: Seq<char>) -> Seq<char> {
    "https://discord.com/api/v10/webhooks/"@ + application_id + "/"@ + token
}

/// Where the messages of a channel are.
pub open spec fn channel_url(channel_id: Seq<char>) -> Seq<char> {
    "https://discord.com/api/v10/channels/"@ + channel_id + "/messages"@
}

/// The request that answers an interaction: it edits the message that stands for the
/// answer so far.
pub open spec fn interaction_answer(
    application_id: Seq<char>,
    token: Seq<char>,
    content: Seq<char>,
    embeds: Option<JsonTree>,
) -> RequestView {
    RequestView {
        method: "PATCH"@,
        url: webhook_url(application_id, token) + "/messages/@original"@,
        headers_json: json_text(content_type_tree()),
        body: Some(json_bytes(answer_tree(truncated(content), embeds, None))),
        timeout_ms: None,
    }
}

/// The request that answers a mention: it posts a reply to the message.
pub open spec fn mention_answer(
    channel_id: Seq<char>,
    source_message_id: Seq<char>,
    content: Seq<char>,
    embeds: Option<JsonTree>,
) -> RequestView {
    RequestView {
        method: "POST"@,
        url: channel_url(channel_id),
        headers_json: json_text(auth_headers_tree(true)),
        body: Some(
            json_bytes(answer_tree(truncated(content), embeds, Some(source_message_id))),
        ),
        timeout_ms: None,
    }
}

/// How an answer is sent, by what was kept with the message that it answers.
pub open spec fn answer(
    metadata: MetadataView,
    content: Seq<char>,
    embeds: Option<JsonTree>,
) -> Result<RequestView, Seq<char>> {
    match (metadata.application_id, metadata.token, metadata.source_message_id) {
        (Some(application_id), Some(token), _) => Ok(
            interaction_answer(application_id, token, content, embeds),
        ),
        (_, _, Some(id)) => Ok(mention_answer(metadata.channel_id, id, content, embeds)),
        _ => Err("Unsupported Discord response metadata"@),
    }
}

/// The embeds that the metadata holds, if it is JSON.
pub open spec fn embeds_in(metadata: Option<JsonTree>) -> Option<JsonTree> {
    match metadata {
        Some(tree) => tree_field(tree, "embeds"@),
        None => None,
    }
}

/// The view of a fallible request.
pub open spec fn request_view(r: Result<HttpRequest, String>) -> Result<RequestView, Seq<char>> {
    match r {
        Ok(request) => Ok(request@),
        Err(reason) => Err(reason@),
    }
}

/// What Discord's reply to an answer means.
pub open spec fn delivery(status: u16, body_text: Seq<char>) -> Result<(), Seq<char>> {
    if success(status) {
        Ok(())
    } else {
        Err("Discord API error: "@ + decimal(status as nat) + " - "@ + body_text)
    }
}

/// The view of a delivery.
pub open spec fn delivery_view(r: Result<(), String>) -> Result<(), Seq<char>> {
    match r {
        Ok(()) => Ok(()),
        Err(reason) => Err(reason@),
    }
}

/// The headers of a request in the bot's name.
pub fn discord_auth_headers_json(include_content_type: bool) -> (text: String)
    ensures
        text@ == json_text(auth_headers_tree(include_content_type)),
{
    let mut headers: Vec<(String, Json)> = Vec::new();
    add_entry(&mut headers, "Authorization", Json::text("Bot {DISCORD_BOT_TOKEN}"));
    if include_content_type {
        add_entry(&mut headers, "Content-Type", Json::text("application/json"));
    }
    Json::Object(headers).to_text()
}

/// The message that an answer posts.
pub fn answer_payload(
    content: &str,
    embeds: Option<Json>,
    source_message_id: Option<&str>,
) -> (payload: Json)
    ensures
        payload.tree() == answer_tree(
            content@,
            optional_tree(embeds),
            match source_message_id {
                Some(id) => Some(id@),
                None => None,
            },
        ),
{
    let mut payload: Vec<(String, Json)> = Vec::new();
    add_entry(&mut payload, "content", Json::text(content));
    match embeds {
        Some(value) => {
            add_entry(&mut payload, "embeds", value);
        },
        None => {},
    }
    match source_message_id {
        Some(id) => {
            let mut reference: Vec<(String, Json)> = Vec::new();
            add_entry(&mut reference, "message_id", Json::text(id));
            add_entry(&mut payload, "message_reference", Json::Object(reference));
            let mut allowed: Vec<(String, Json)> = Vec::new();
            add_entry(&mut allowed, "replied_user", Json::Bool(true));
            add_entry(&mut payload, "allowed_mentions", Json::Object(allowed));
        },
        None => {},
    }
    Json::Object(payload)
}

/// Where the answer to an interaction goes.
pub fn interaction_webhook(application_id: &str, token: &str) -> (url: String)
    ensures
        url@ == webhook_url(application_id@, token@),
{
    let mut url = joined("https://discord.com/api/v10/webhooks/", application_id);
    url.append("/");
    url.append(token);
    url
}

/// Where the messages of a channel are.
pub fn channel_messages(channel_id: &str) -> (url: String)
    ensures
        url@ == channel_url(channel_id@),
{
    let mut url = joined("https://discord.com/api/v10/channels/", channel_id);
    url.append("/messages");
    url
}

/// The request that sends an answer, with these embeds.
pub fn answer_request(
    metadata: &DiscordMessageMetadata,
    content: &str,
    embeds: Option<Json>,
) -> (r: Result<HttpRequest, String>)
    ensures
        request_view(r) == answer(metadata@, content@, optional_tree(embeds)),
{
    let cut = truncate_message(content);
    match (&metadata.application_id, &metadata.token) {
        (Some(application_id), Some(token)) => {
            let mut url = interaction_webhook(application_id.as_str(), token.as_str());
            url.append("/messages/@original");
            let payload = answer_payload(cut.as_str(), embeds, None);
            Ok(
                HttpRequest {
                    method: "PATCH".to_owned(),
                    url,
                    headers_json: content_type_json(),
                    body: Some(to_json_bytes(&payload)),
                    timeout_ms: None,
                },
            )
        },
        _ => match &metadata.source_message_id {
            Some(id) => {
                let payload = answer_payload(cut.as_str(), embeds, Some(id.as_str()));
                Ok(
                    HttpRequest {
                        method: "POST".to_owned(),
                        url: channel_messages(metadata.channel_id.as_str()),
                        headers_json: discord_auth_headers_json(true),
                        body: Some(to_json_bytes(&payload)),
                        timeout_ms: None,
                    },
                )
            },
            None => Err("Unsupported Discord response metadata".to_owned()),
        },
    }
}

/// The request that sends an answer. `metadata` is what reading `metadata_json` as
/// message metadata gave, or why it failed; the embeds are read from `metadata_json`
/// itself.
pub fn on_respond(
    content: &str,
    metadata_json: &str,
    metadata: Result<DiscordMessageMetadata, String>,
) -> (r: Result<HttpRequest, String>)
    ensures
        request_view(r) == match metadata {
            Ok(read) => answer(
                read@,
                content@,
                embeds_in(parsed_json(encode_utf8(metadata_json@))),
            ),
            Err(reason) => Err("Failed to parse metadata: "@ + reason@),
        },
{
    match metadata {
        Ok(read) => {
            let embeds = match Json::parse(metadata_json.as_bytes()) {
                Some(json) => json.into_field("embeds"),
                None => None,
            };
            answer_request(&read, content, embeds)
        },
        Err(reason) => Err(joined("Failed to parse metadata: ", reason.as_str())),
    }
}

/// What Discord's reply to an answer means.
pub fn delivery_result(status: u16, body_text: &str) -> (r: Result<(), String>)
    ensures
        delivery_view(r) == delivery(status, body_text@),
{
    if is_success(status) {
        Ok(())
    } else {
        let mut reason = joined("Discord API error: ", decimal_text(status as u64).as_str());
        reason.append(" - ");
        reason.append(body_text);
        Err(reason)
    }
}

/// What came of sending an answer.
pub fn map_discord_response(result: Result<HttpResponse, String>) -> (r: Result<(), String>)
    ensures
        delivery_view(r) == match result {
            Ok(response) => delivery(response.status, lossy_text(response.body@)),
            Err(reason) => Err("HTTP request failed: "@ + reason@),
        },
        result matches Ok(response) ==> (valid_utf8(response.body@) ==> delivery_view(r)
            == delivery(response.status, decode_utf8(response.body@))),
{
    match result {
        Ok(response) => {
            let body_text = text_from_utf8_lossy(response.body.as_slice());
            delivery_result(response.status, body_text.as_str())
        },
        Err(reason) => Err(joined("HTTP request failed: ", reason.as_str())),
    }
}

/// An answer never posts more than 2006 bytes of text.
pub proof fn answers_are_bounded(
    metadata: MetadataView,
    content: Seq<char>,
    embeds: Option<JsonTree>,
)
    ensures
        answer(metadata, content, embeds) matches Ok(request) ==> exists|text: Seq<char>, id: Option<Seq<char>>|
            request.body == Some(json_bytes(#[trigger] answer_tree(text, embeds, id)))
                && encode_utf8(text).len() <= 2006,
{
    crate::discord::truncate::truncated_is_bounded(content);
    let direct = answer_tree(truncated(content), embeds, None);
    let reply = answer_tree(truncated(content), embeds, metadata.source_message_id);
    if answer(metadata, content, embeds) is Ok {
        let request = answer(metadata, content, embeds)->Ok_0;
        assert(request.body == Some(json_bytes(direct)) || request.body == Some(
            json_bytes(reply),
        ));
    }
}

/// The object holds the value under the key, and nothing else.
pub open spec fn only_field(tree: JsonTree, key: Seq<char>, value: JsonTree) -> bool {
    &&& plain::field(tree, key) == Some(value)
    &&& forall|other: Seq<char>| #[trigger] plain::field(tree, other) is Some ==> other == key
}

/// The object has under `content` exactly this text, and these embeds; where it refers to a
/// message it names that message and has its author pinged; and it holds nothing else.
pub open spec fn is_answer(
    tree: JsonTree,
    content: Seq<char>,
    embeds: Option<JsonTree>,
    source: Option<Seq<char>>,
) -> bool {
    &&& plain::text_under(tree, "content"@) == Some(content)
    &&& plain::field(tree, "embeds"@) == embeds
    &&& match source {
        Some(id) => {
            &&& plain::field(tree, "message_reference"@) is Some
            &&& plain::field(tree, "allowed_mentions"@) is Some
            &&& only_field(
                plain::field(tree, "message_reference"@)->0,
                "message_id"@,
                JsonTree::Text(id),
            )
            &&& only_field(
                plain::field(tree, "allowed_mentions"@)->0,
                "replied_user"@,
                JsonTree::Bool(true),
            )
        },
        None => plain::field(tree, "message_reference"@) is None && plain::field(
            tree,
            "allowed_mentions"@,
        ) is None,
    }
    &&& forall|key: Seq<char>| #[trigger]
        plain::field(tree, key) is Some ==> key == "content"@ || key == "embeds"@ || key
            == "message_reference"@ || key == "allowed_mentions"@
}

/// The body of a request is the JSON text of such an object.
pub open spec fn posts(
    body: Option<Seq<u8>>,
    content: Seq<char>,
    embeds: Option<JsonTree>,
    source: Option<Seq<char>>,
) -> bool {
    exists|tree: JsonTree|
        body == Some(encode_utf8(#[trigger] json_text(tree))) && is_answer(
            tree,
            content,
            embeds,
            source,
        )
}

/// The object that an answer posts has under `content` exactly the text it was given, and
/// the embeds and the reference that it was given.
pub proof fn answers_post_what_they_are_given(
    content: Seq<char>,
    embeds: Option<JsonTree>,
    id: Option<Seq<char>>,
)
    ensures
        plain::text_under(answer_tree(content, embeds, id), "content"@) == Some(content),
        is_answer(answer_tree(content, embeds, id), content, embeds, id),
{
    reveal_strlit("content");
    reveal_strlit("embeds");
    reveal_strlit("message_reference");
    reveal_strlit("allowed_mentions");
    assert("content"@.len() == 7);
    assert("embeds"@.len() == 6);
    assert("message_reference"@.len() == 17);
    assert("allowed_mentions"@.len() == 16);
}

/// An answer of at most 2000 bytes is posted character by character as the agent wrote it:
/// to the interaction where the metadata names one, and else as a reply to the message in
/// its channel. Without either it is refused.
pub proof fn short_answers_are_posted_as_written(
    metadata: MetadataView,
    content: Seq<char>,
    embeds: Option<JsonTree>,
)
    requires
        encode_utf8(content).len() <= 2000,
    ensures
        match answer(metadata, content, embeds) {
            Ok(request) => if metadata.application_id is Some && metadata.token is Some {
                posts(request.body, content, embeds, None)
            } else {
                &&& metadata.source_message_id is Some
                &&& posts(request.body, content, embeds, metadata.source_message_id)
            },
            Err(_) => (metadata.application_id is None || metadata.token is None)
                && metadata.source_message_id is None,
        },
{
    crate::discord::truncate::messages_are_sent_as_written_or_cut(content);
    answers_go_where_they_belong(metadata, content, embeds);
}

/// Where an answer goes: with an application ID and a token it edits the message that
/// stands for the answer so far; else, with a source message, it is posted to the channel
/// in the bot's name; else it is refused. What is posted is the text, cut where it is too
/// long, with its embeds.
pub proof fn answers_go_where_they_belong(
    metadata: MetadataView,
    content: Seq<char>,
    embeds: Option<JsonTree>,
)
    ensures
        match answer(metadata, content, embeds) {
            Ok(request) => if metadata.application_id is Some && metadata.token is Some {
                &&& request.method == "PATCH"@
                &&& request.url == "https://discord.com/api/v10/webhooks/"@
                    + metadata.application_id->0 + "/"@ + metadata.token->0
                    + "/messages/@original"@
                &&& request.headers_json == json_text(content_type_tree())
                &&& request.timeout_ms is None
                &&& posts(request.body, truncated(content), embeds, None)
            } else {
                &&& metadata.source_message_id is Some
                &&& request.method == "POST"@
                &&& request.url == "https://discord.com/api/v10/channels/"@ + metadata.channel_id
                    + "/messages"@
                &&& request.headers_json == json_text(auth_headers_tree(true))
                &&& request.timeout_ms is None
                &&& posts(request.body, truncated(content), embeds, metadata.source_message_id)
            },
            Err(reason) => {
                &&& metadata.application_id is None || metadata.token is None
                &&& metadata.source_message_id is None
                &&& reason == "Unsupported Discord response metadata"@
            },
        },
{
    let cut = truncated(content);
    if metadata.application_id is Some && metadata.token is Some {
        answers_post_what_they_are_given(cut, embeds, None);
        let tree = answer_tree(cut, embeds, None);
        assert(json_bytes(tree) == encode_utf8(json_text(tree)));
        assert(posts(Some(json_bytes(tree)), cut, embeds, None));
    } else if metadata.source_message_id is Some {
        answers_post_what_they_are_given(cut, embeds, metadata.source_message_id);
        let tree = answer_tree(cut, embeds, metadata.source_message_id);
        assert(json_bytes(tree) == encode_utf8(json_text(tree)));
        assert(posts(Some(json_bytes(tree)), cut, embeds, metadata.source_message_id));
    }
}

/// A request in the bot's name carries the placeholder for the token, says that it is JSON
/// where it has a body, and no other header.
pub proof fn bot_requests_carry_the_placeholder(with_body: bool, key: Seq<char>)
    ensures
        plain::field(auth_headers_tree(with_body), key) == if key == "Authorization"@ {
            Some(JsonTree::Text("Bot {DISCORD_BOT_TOKEN}"@))
        } else if key == "Content-Type"@ && with_body {
            Some(JsonTree::Text("application/json"@))
        } else {
            None
        },
{
    reveal_strlit("Authorization");
    reveal_strlit("Content-Type");
    assert("Authorization"@.len() == 13);
    assert("Content-Type"@.len() == 12);
}

/// The embeds of an answer are what its metadata holds under `embeds`.
pub proof fn embeds_come_from_the_metadata(metadata: Option<JsonTree>)
    ensures
        metadata is None ==> embeds_in(metadata) is None,
        metadata matches Some(tree) ==> embeds_in(metadata) == plain::field(tree, "embeds"@),
{
}

/// An answer is delivered exactly where Discord replies with a status from 200 to 299. The
/// error of one that is not shows the status in decimal and the body as it came.
pub proof fn deliveries_go_by_the_status(status: u16, body: Seq<char>)
    ensures
        delivery(status, body) is Ok <==> status / 100 == 2,
        delivery(status, body) matches Err(reason) ==> reason == "Discord API error: "@ + decimal(
            status as nat,
        ) + " - "@ + body,
{
}

/// The addresses of Discord: of an interaction's webhook and of a channel's messages.
pub proof fn addresses_name_what_they_are_for(a: Seq<char>, b: Seq<char>)
    ensures
        webhook_url(a, b) == "https://discord.com/api/v10/webhooks/"@ + a + "/"@ + b,
        channel_url(a) == "https://discord.com/api/v10/channels/"@ + a + "/messages"@,
{
}

} // verus!
