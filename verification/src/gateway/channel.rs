//! The gateway channel towards Discord's REST API.

use vstd::prelude::*;
use vstd::string::*;
use vstd::utf8::*;
use crate::discord::reply::{
    answer_payload, answer_tree, answers_post_what_they_are_given, channel_messages, channel_url,
    is_answer,
};
use crate::gateway::types::{
    ChannelError, ChannelErrorView, RealtimeGatewayConfig, CHANNEL_NAME,
};
use crate::http::{is_success, success};
use crate::json::{text_field, Json, JsonTree};
use crate::plain;
use crate::serde_bridge::json_text;
use crate::text::joined;

verus! {

/// The value of an HTTP header, of the `http` crate as `reqwest` hands it on.
#[verifier::external_type_specification]
#[verifier::external_body]
pub struct ExHeaderValue(reqwest::header::HeaderValue);

/// The error of a header value that is refused.
#[verifier::external_type_specification]
#[verifier::external_body]
pub struct ExInvalidHeaderValue(reqwest::header::InvalidHeaderValue);

/// The bytes that a header value holds.
pub uninterp spec fn header_bytes(value: reqwest::header::HeaderValue) -> Seq<u8>;

/// The bytes that a header value may hold: no control character but the tab.
pub open spec fn header_valid(bytes: Seq<u8>) -> bool {
    forall|i: int|
        0 <= i < bytes.len() ==> (#[trigger] bytes[i] >= 32 && bytes[i] != 127) || bytes[i] == 9
}

/// `HeaderValue::from_str` takes the bytes of the text as they are, and refuses a text
/// with a control character other than the tab.
pub assume_specification[ reqwest::header::HeaderValue::from_str ](src: &str) -> (r: Result<
    reqwest::header::HeaderValue,
    reqwest::header::InvalidHeaderValue,
>)
    ensures
        r is Ok == header_valid(src.spec_bytes()),
        r matches Ok(value) ==> header_bytes(value) == src.spec_bytes(),
;

/// `InvalidHeaderValue`'s `to_string` gives one and the same text.
#[verifier::external_body]
fn invalid_header_text(error: &reqwest::header::InvalidHeaderValue) -> (text: String)
    ensures
        text@ == "failed to parse header value"@,
{
    error.to_string()
}

/// The text that `reqwest::StatusCode` shows for a status: the number and its reason.
pub uninterp spec fn shown_status(status: u16) -> Seq<char>;

/// `reqwest::StatusCode`'s `to_string` gives a text that depends on the status alone. A
/// status is a number from 100 to 999; `StatusCode::from_u16` refuses any other.
#[verifier::external_body]
fn status_text(status: u16) -> (text: String)
    requires
        100 <= status <= 999,
    ensures
        text@ == shown_status(status),
{
    reqwest::StatusCode::from_u16(status).unwrap().to_string()
}

/// The value of the authorization header.
pub open spec fn authorization_text(token: Seq<char>) -> Seq<char> {
    "Bot "@ + token
}

/// What sending a reply asks for.
#[derive(Debug)]
pub struct ReplyRequest {
    pub url: String,
    /// The body, a JSON text.
    pub body: String,
}

/// What a [`ReplyRequest`] says.
pub struct ReplyView {
    pub url: Seq<char>,
    pub body: Seq<char>,
}

impl View for ReplyRequest {
    type V = ReplyView;

    open spec fn view(&self) -> ReplyView {
        ReplyView { url: self.url@, body: self.body@ }
    }
}

/// The reply to a message with this metadata.
pub open spec fn reply(
    metadata: JsonTree,
    content: Seq<char>,
) -> Result<ReplyView, ChannelErrorView> {
    match text_field(metadata, "channel_id"@) {
        Some(channel_id) => Ok(
            ReplyView {
                url: channel_url(channel_id),
                body: json_text(
                    answer_tree(content, None, text_field(metadata, "source_message_id"@)),
                ),
            },
        ),
        None => Err(
            ChannelErrorView::SendFailed {
                name: CHANNEL_NAME@,
                reason: "missing metadata.channel_id"@,
            },
        ),
    }
}

/// What Discord's answer to a reply means.
pub open spec fn reply_result(
    status: u16,
    shown: Seq<char>,
    body: Seq<char>,
) -> Result<(), ChannelErrorView> {
    if success(status) {
        Ok(())
    } else {
        Err(
            ChannelErrorView::SendFailed {
                name: CHANNEL_NAME@,
                reason: "discord API error "@ + shown + ": "@ + body,
            },
        )
    }
}

/// Whether a channel is healthy, by whether its task is there and has finished.
pub open spec fn health(task_finished: Option<bool>) -> Result<(), ChannelErrorView> {
    if task_finished == Some(false) {
        Ok(())
    } else {
        Err(ChannelErrorView::HealthCheckFailed { name: CHANNEL_NAME@ })
    }
}

/// The view of a fallible reply.
pub open spec fn reply_view(r: Result<ReplyRequest, ChannelError>) -> Result<
    ReplyView,
    ChannelErrorView,
> {
    match r {
        Ok(request) => Ok(request@),
        Err(error) => Err(error@),
    }
}

/// The view of an outcome.
pub open spec fn outcome_view(r: Result<(), ChannelError>) -> Result<(), ChannelErrorView> {
    match r {
        Ok(()) => Ok(()),
        Err(error) => Err(error@),
    }
}

/// The value of the authorization header, if the token can stand in one.
pub fn authorization_header(config: &RealtimeGatewayConfig) -> (r: Result<
    reqwest::header::HeaderValue,
    ChannelError,
>)
    ensures
        r is Ok == header_valid(encode_utf8(authorization_text(config.token@))),
        match r {
            Ok(value) => header_bytes(value) == encode_utf8(authorization_text(config.token@)),
            Err(error) => error@ == (ChannelErrorView::StartupFailed {
                name: CHANNEL_NAME@,
                reason: "invalid bot token header: "@ + "failed to parse header value"@,
            }),
        },
{
    let auth = joined("Bot ", config.token.as_str());
    match reqwest::header::HeaderValue::from_str(auth.as_str()) {
        Ok(value) => Ok(value),
        Err(error) => Err(
            ChannelError::StartupFailed {
                name: CHANNEL_NAME.to_owned(),
                reason: joined("invalid bot token header: ", invalid_header_text(&error).as_str()),
            },
        ),
    }
}

/// The error of an HTTP client that cannot be made.
pub fn client_failure(error: &str) -> (r: ChannelError)
    ensures
        r@ == (ChannelErrorView::StartupFailed {
            name: CHANNEL_NAME@,
            reason: "failed to create HTTP client: "@ + error@,
        }),
{
    ChannelError::StartupFailed {
        name: CHANNEL_NAME.to_owned(),
        reason: joined("failed to create HTTP client: ", error),
    }
}

/// The reply to a message with this metadata.
pub fn respond(metadata: &Json, content: &str) -> (r: Result<ReplyRequest, ChannelError>)
    ensures
        reply_view(r) == reply(metadata@, content@),
{
    match metadata.get_text("channel_id") {
        Some(channel_id) => {
            let payload = answer_payload(content, None, metadata.get_text("source_message_id"));
            Ok(ReplyRequest { url: channel_messages(channel_id), body: payload.to_text() })
        },
        None => Err(
            ChannelError::SendFailed {
                name: CHANNEL_NAME.to_owned(),
                reason: "missing metadata.channel_id".to_owned(),
            },
        ),
    }
}

/// What Discord's answer to a reply means, by its status and its body.
pub fn respond_result(status: u16, body: &str) -> (r: Result<(), ChannelError>)
    requires
        100 <= status <= 999,
    ensures
        outcome_view(r) == reply_result(status, shown_status(status), body@),
{
    reply_outcome(status, status_text(status).as_str(), body)
}

/// What Discord's answer to a reply means. `shown` is the status as it is shown.
pub fn reply_outcome(status: u16, shown: &str, body: &str) -> (r: Result<(), ChannelError>)
    ensures
        outcome_view(r) == reply_result(status, shown@, body@),
{
    if is_success(status) {
        Ok(())
    } else {
        let mut reason = joined("discord API error ", shown);
        reason.append(": ");
        reason.append(body);
        Err(ChannelError::SendFailed { name: CHANNEL_NAME.to_owned(), reason })
    }
}

/// Whether the channel is healthy: its task is there and has not finished.
pub fn health_check(task_finished: Option<bool>) -> (r: Result<(), ChannelError>)
    ensures
        outcome_view(r) == health(task_finished),
{
    match task_finished {
        Some(false) => Ok(()),
        _ => Err(ChannelError::HealthCheckFailed { name: CHANNEL_NAME.to_owned() }),
    }
}

/// The authorization is the bot's token behind the word for bots, unchanged.
pub proof fn tokens_are_sent_unchanged(token: Seq<char>)
    ensures
        authorization_text(token) == seq!['B', 'o', 't', ' '] + token,
{
    reveal_strlit("Bot ");
    assert("Bot "@ =~= seq!['B', 'o', 't', ' ']);
}

/// A reply posts exactly the text it was given to the channel that the metadata names, and
/// refers to the message that the metadata names, if any. It is refused exactly where no
/// channel is named.
pub proof fn replies_post_what_they_are_given(metadata: JsonTree, content: Seq<char>)
    ensures
        match reply(metadata, content) {
            Ok(request) => {
                &&& plain::text_under(metadata, "channel_id"@) is Some
                &&& request.url == "https://discord.com/api/v10/channels/"@ + plain::text_under(
                    metadata,
                    "channel_id"@,
                )->0 + "/messages"@
                &&& exists|tree: JsonTree|
                    request.body == #[trigger] json_text(tree) && is_answer(
                        tree,
                        content,
                        None,
                        plain::text_under(metadata, "source_message_id"@),
                    )
            },
            Err(error) => {
                &&& plain::text_under(metadata, "channel_id"@) is None
                &&& error == (ChannelErrorView::SendFailed {
                    name: "discord-gateway"@,
                    reason: "missing metadata.channel_id"@,
                })
            },
        },
{
    let source = plain::text_under(metadata, "source_message_id"@);
    answers_post_what_they_are_given(content, None, source);
    if plain::text_under(metadata, "channel_id"@) is Some {
        let tree = answer_tree(content, None, source);
        assert(reply(metadata, content)->Ok_0.body == json_text(tree));
        assert(is_answer(tree, content, None, source));
    }
}

/// A reply is taken exactly where Discord answers with a status from 200 to 299. The error
/// of one that is not shows the status and the body as they came.
pub proof fn replies_go_by_the_status(status: u16, shown: Seq<char>, body: Seq<char>)
    ensures
        reply_result(status, shown, body) is Ok <==> status / 100 == 2,
        reply_result(status, shown, body) matches Err(error) ==> error == (
        ChannelErrorView::SendFailed {
            name: "discord-gateway"@,
            reason: "discord API error "@ + shown + ": "@ + body,
        }),
{
}

/// A channel is healthy exactly where its task is there and has not finished.
pub proof fn health_needs_a_running_task(task_finished: Option<bool>)
    ensures
        health(task_finished) is Ok <==> task_finished is Some && !task_finished->0,
        health(task_finished) matches Err(error) ==> error == (
        ChannelErrorView::HealthCheckFailed { name: "discord-gateway"@ }),
{
}

/// A header takes every byte but the control characters, of which it takes the tab.
pub proof fn headers_take_no_control_characters(bytes: Seq<u8>)
    ensures
        header_valid(bytes) <==> !exists|i: int|
            0 <= i < bytes.len() && {
                ||| #[trigger] bytes[i] < 9
                ||| 9 < bytes[i] < 32
                ||| bytes[i] == 127
            },
{
    if !header_valid(bytes) {
        let i = choose|i: int|
            0 <= i < bytes.len() && !((#[trigger] bytes[i] >= 32 && bytes[i] != 127) || bytes[i]
                == 9);
        assert(bytes[i] < 9 || 9 < bytes[i] < 32 || bytes[i] == 127);
    }
}

/// What a reply and an outcome say is what they hold.
pub proof fn replies_say_what_they_hold(request: ReplyRequest, error: ChannelError)
    ensures
        request@.url == request.url@,
        request@.body == request.body@,
        reply_view(Ok(request)) == Ok::<_, ChannelErrorView>(request@),
        reply_view(Err(error)) == Err::<ReplyView, _>(error@),
        outcome_view(Ok(())) == Ok::<(), ChannelErrorView>(()),
        outcome_view(Err(error)) == Err::<(), _>(error@),
{
}

} // verus!
