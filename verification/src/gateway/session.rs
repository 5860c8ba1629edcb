//! A session with the gateway, from its greeting to its end.

use vstd::prelude::*;
use vstd::string::*;
use crate::digits::{signed_decimal, signed_decimal_text};
use crate::discord::mentions::{content_mentions, mention_content, mention_text, text_mentions};
use crate::discord::types::{display_name, optional_text, shown_name};
use crate::gateway::types::{
    DiscordMention, DiscordMessageEvent, GatewayEnvelope, HelloPayload, IncomingMessage,
    IncomingView, ReadyPayload, CHANNEL_NAME,
};
use crate::json::{add_entry, integer_tree, Json, JsonTree};
use crate::serde_bridge::json_text;
use crate::text::{joined, same_text, views};

verus! {

pub const INTENT_GUILD_MESSAGES: i64 = 512;

pub const INTENT_DIRECT_MESSAGES: i64 = 4096;

pub const INTENT_MESSAGE_CONTENT: i64 = 32768;

/// A step of a session that fails with an error from outside.
#[derive(Debug)]
pub enum SessionStep {
    Connect,
    ParseHello,
    ReadHello,
    HelloPayload,
    SendIdentify,
    Read,
    Parse,
    Ready,
    MessageCreate,
    SendHeartbeat,
}

/// What came from the connection: a text that was read as an envelope or could not be,
/// another frame, an error, or the end.
#[derive(Debug)]
pub enum GatewayFrame {
    Text(Result<GatewayEnvelope, String>),
    Close,
    Other,
    ReadError(String),
    Ended,
}

/// What has happened to a session: each event tells what came of the action before it.
/// Where something failed it carries the error.
#[derive(Debug)]
pub enum SessionEvent {
    /// The connection was made.
    Connected(Result<(), String>),
    /// A frame was received.
    Received(GatewayFrame),
    /// The payload of the greeting was read.
    HelloRead(Result<HelloPayload, String>),
    /// The bot was identified.
    Identified(Result<(), String>),
    /// The payload of READY was read.
    ReadyRead(Result<ReadyPayload, String>),
    /// The payload of MESSAGE_CREATE was read.
    MessageRead(Result<DiscordMessageEvent, String>),
    /// A heartbeat was sent.
    HeartbeatSent(Result<(), String>),
    /// A message was handed on, or there was nobody left to take it.
    Delivered(bool),
}

/// What to do next.
#[derive(Debug)]
pub enum SessionAction {
    /// Receive the next frame.
    Receive,
    /// Read the payload of the last frame as [`HelloPayload`].
    ReadHello,
    /// Send this text, and once it is sent begin to send heartbeats at this interval.
    Identify { text: String, heartbeat_ms: u64 },
    /// Read the payload of the last frame as [`ReadyPayload`].
    ReadReady,
    /// Read the payload of the last frame as [`DiscordMessageEvent`].
    ReadMessage,
    /// Send this heartbeat.
    SendHeartbeat(String),
    /// Hand on this message.
    Deliver(IncomingMessage),
    /// The session is over: in order, or with an error.
    End(Result<(), String>),
}

/// What a [`SessionAction`] says.
pub enum ActionView {
    Receive,
    ReadHello,
    Identify { text: Seq<char>, heartbeat_ms: u64 },
    ReadReady,
    ReadMessage,
    SendHeartbeat(Seq<char>),
    Deliver(IncomingView),
    End(Result<(), Seq<char>>),
}

impl View for SessionAction {
    type V = ActionView;

    open spec fn view(&self) -> ActionView {
        match self {
            SessionAction::Receive => ActionView::Receive,
            SessionAction::ReadHello => ActionView::ReadHello,
            SessionAction::Identify { text, heartbeat_ms } => ActionView::Identify {
                text: text@,
                heartbeat_ms: *heartbeat_ms,
            },
            SessionAction::ReadReady => ActionView::ReadReady,
            SessionAction::ReadMessage => ActionView::ReadMessage,
            SessionAction::SendHeartbeat(text) => ActionView::SendHeartbeat(text@),
            SessionAction::Deliver(message) => ActionView::Deliver(message@),
            SessionAction::End(result) => ActionView::End(result_text(*result)),
        }
    }
}

/// A session with the gateway.
#[derive(Debug)]
pub struct GatewaySession {
    /// The bot's token.
    pub token: String,
    /// The channels to listen to: all of them where none is named.
    pub allow_channels: Vec<String>,
    /// The gateway has greeted.
    pub greeted: bool,
    /// The last sequence number.
    pub seq: Option<i64>,
    /// Who the bot is.
    pub bot_user_id: Option<String>,
    /// How the session has ended, if it has.
    pub ended: Option<Result<(), String>>,
}

/// What a [`GatewaySession`] is.
pub struct SessionView {
    pub token: Seq<char>,
    pub allow_channels: Seq<Seq<char>>,
    pub greeted: bool,
    pub seq: Option<i64>,
    pub bot_user_id: Option<Seq<char>>,
    pub ended: Option<Result<(), Seq<char>>>,
}

impl View for GatewaySession {
    type V = SessionView;

    open spec fn view(&self) -> SessionView {
        SessionView {
            token: self.token@,
            allow_channels: views(self.allow_channels@),
            greeted: self.greeted,
            seq: self.seq,
            bot_user_id: optional_text(self.bot_user_id),
            ended: match self.ended {
                Some(result) => Some(result_text(result)),
                None => None,
            },
        }
    }
}

/// How something has ended: in order, or with an error of this text.
pub open spec fn result_text(result: Result<(), String>) -> Result<(), Seq<char>> {
    match result {
        Ok(()) => Ok(()),
        Err(reason) => Err(reason@),
    }
}

/// The error of a step.
pub open spec fn step_error(step: SessionStep, error: Seq<char>) -> Seq<char> {
    match step {
        SessionStep::Connect => "connect failed: "@ + error,
        SessionStep::ParseHello => "hello parse: "@ + error,
        SessionStep::ReadHello => "hello read error: "@ + error,
        SessionStep::HelloPayload => "hello payload: "@ + error,
        SessionStep::SendIdentify => "identify send failed: "@ + error,
        SessionStep::Read => "gateway read error: "@ + error,
        SessionStep::Parse => "gateway payload parse failed: "@ + error,
        SessionStep::Ready => "READY parse failed: "@ + error,
        SessionStep::MessageCreate => "MESSAGE_CREATE parse failed: "@ + error,
        SessionStep::SendHeartbeat => "heartbeat send failed: "@ + error,
    }
}

/// Whether the first frame greets as it should: no error, or the error it ends with.
pub open spec fn hello_error(frame: GatewayFrame) -> Option<Seq<char>> {
    match frame {
        GatewayFrame::Text(Ok(envelope)) => if envelope.op == 10 {
            None
        } else {
            Some("expected HELLO (op=10), got op="@ + signed_decimal(envelope.op as int))
        },
        GatewayFrame::Text(Err(error)) => Some(step_error(SessionStep::ParseHello, error@)),
        GatewayFrame::ReadError(error) => Some(step_error(SessionStep::ReadHello, error@)),
        GatewayFrame::Ended => Some("gateway closed before hello"@),
        _ => Some("expected text hello frame"@),
    }
}

/// The payload that identifies the bot.
pub open spec fn identify_tree(token: Seq<char>) -> JsonTree {
    let properties = Map::empty().insert("$os"@, JsonTree::Text("linux"@)).insert(
        "$browser"@,
        JsonTree::Text("ironclaw"@),
    ).insert("$device"@, JsonTree::Text("ironclaw"@));
    let data = Map::empty().insert("token"@, JsonTree::Text(token)).insert(
        "intents"@,
        integer_tree(INTENT_GUILD_MESSAGES + INTENT_DIRECT_MESSAGES + INTENT_MESSAGE_CONTENT),
    ).insert("properties"@, JsonTree::Object(properties));
    JsonTree::Object(
        Map::empty().insert("op"@, integer_tree(2)).insert("d"@, JsonTree::Object(data)),
    )
}

/// A heartbeat, with the last sequence number.
pub open spec fn heartbeat_tree(seq: Option<i64>) -> JsonTree {
    JsonTree::Object(
        Map::empty().insert("op"@, integer_tree(1)).insert(
            "d"@,
            match seq {
                Some(s) => integer_tree(s as int),
                None => JsonTree::Null,
            },
        ),
    )
}

/// The time between two heartbeats in milliseconds: at least a second.
pub open spec fn heartbeat_pause(hello: HelloPayload) -> u64 {
    if hello.heartbeat_interval < 1_000 {
        1_000
    } else {
        hello.heartbeat_interval
    }
}

/// The session once the sequence number of an envelope is noted.
pub open spec fn with_sequence(session: SessionView, envelope: GatewayEnvelope) -> SessionView {
    match envelope.s {
        Some(s) => SessionView { seq: Some(s), ..session },
        None => session,
    }
}

/// What to do about an envelope, once its sequence number is noted.
pub open spec fn envelope_action(session: SessionView, envelope: GatewayEnvelope) -> ActionView {
    if envelope.op == 0 {
        match envelope.t {
            Some(event) => if event@ == "READY"@ {
                ActionView::ReadReady
            } else if event@ == "MESSAGE_CREATE"@ && session.bot_user_id is Some {
                ActionView::ReadMessage
            } else {
                ActionView::Receive
            },
            None => ActionView::Receive,
        }
    } else if envelope.op == 1 {
        ActionView::SendHeartbeat(json_text(heartbeat_tree(session.seq)))
    } else if envelope.op == 7 || envelope.op == 9 {
        ActionView::End(
            Err("gateway requested reconnect op="@ + signed_decimal(envelope.op as int)),
        )
    } else {
        ActionView::Receive
    }
}

/// What to do about a frame after the greeting.
pub open spec fn frame_action(session: SessionView, frame: GatewayFrame) -> ActionView {
    match frame {
        GatewayFrame::Text(Ok(envelope)) => envelope_action(
            with_sequence(session, envelope),
            envelope,
        ),
        GatewayFrame::Text(Err(error)) => failed(SessionStep::Parse, error@),
        GatewayFrame::ReadError(error) => failed(SessionStep::Read, error@),
        GatewayFrame::Other => ActionView::Receive,
        GatewayFrame::Close => ActionView::End(Ok(())),
        GatewayFrame::Ended => ActionView::End(Ok(())),
    }
}

/// The session ends with the error of a step.
pub open spec fn failed(step: SessionStep, error: Seq<char>) -> ActionView {
    ActionView::End(Err(step_error(step, error)))
}

/// What to do after an event: a session that has ended stays ended.
pub open spec fn session_action(session: SessionView, event: SessionEvent) -> ActionView {
    match session.ended {
        Some(result) => ActionView::End(result),
        None => running_action(session, event),
    }
}

/// The session after an event: one that has ended stays as it is.
pub open spec fn session_after(session: SessionView, event: SessionEvent) -> SessionView {
    match session.ended {
        Some(_) => session,
        None => SessionView {
            ended: match running_action(session, event) {
                ActionView::End(result) => Some(result),
                _ => None,
            },
            ..running_after(session, event)
        },
    }
}

/// What to do after an event, while the session runs.
pub open spec fn running_action(session: SessionView, event: SessionEvent) -> ActionView {
    match event {
        SessionEvent::Connected(Ok(())) => ActionView::Receive,
        SessionEvent::Connected(Err(error)) => failed(SessionStep::Connect, error@),
        SessionEvent::Received(frame) => if session.greeted {
            frame_action(session, frame)
        } else {
            match hello_error(frame) {
                None => ActionView::ReadHello,
                Some(reason) => ActionView::End(Err(reason)),
            }
        },
        SessionEvent::HelloRead(Ok(hello)) => ActionView::Identify {
            text: json_text(identify_tree(session.token)),
            heartbeat_ms: heartbeat_pause(hello),
        },
        SessionEvent::HelloRead(Err(error)) => failed(SessionStep::HelloPayload, error@),
        SessionEvent::Identified(Ok(())) => ActionView::Receive,
        SessionEvent::Identified(Err(error)) => failed(SessionStep::SendIdentify, error@),
        SessionEvent::ReadyRead(Ok(_)) => ActionView::Receive,
        SessionEvent::ReadyRead(Err(error)) => failed(SessionStep::Ready, error@),
        SessionEvent::MessageRead(Ok(msg)) => match message_event(session, msg) {
            Some(message) => ActionView::Deliver(message),
            None => ActionView::Receive,
        },
        SessionEvent::MessageRead(Err(error)) => failed(SessionStep::MessageCreate, error@),
        SessionEvent::HeartbeatSent(Ok(())) => ActionView::Receive,
        SessionEvent::HeartbeatSent(Err(error)) => failed(SessionStep::SendHeartbeat, error@),
        SessionEvent::Delivered(taken) => if taken {
            ActionView::Receive
        } else {
            ActionView::End(Ok(()))
        },
    }
}

/// What a session that runs holds after an event.
pub open spec fn running_after(session: SessionView, event: SessionEvent) -> SessionView {
    match event {
        SessionEvent::Received(GatewayFrame::Text(Ok(envelope))) => if session.greeted {
            with_sequence(session, envelope)
        } else {
            session
        },
        SessionEvent::HelloRead(Ok(_)) => SessionView { greeted: true, ..session },
        SessionEvent::ReadyRead(Ok(ready)) => SessionView {
            bot_user_id: Some(ready.user.id@),
            ..session
        },
        _ => session,
    }
}

/// The channel is listened to: all are where none is named.
pub open spec fn listens_to(allow_channels: Seq<Seq<char>>, channel_id: Seq<char>) -> bool {
    allow_channels.len() == 0 || allow_channels.contains(channel_id)
}

/// The message mentions the user `id`.
pub open spec fn event_mentions(msg: DiscordMessageEvent, id: Seq<char>) -> bool {
    lists_mention(msg.mentions@, id) || text_mentions(msg.content@, id)
}

/// The user `id` is in the list.
pub open spec fn lists_mention(mentions: Seq<DiscordMention>, id: Seq<char>) -> bool {
    exists|i: int| 0 <= i < mentions.len() && (#[trigger] mentions[i]).id@ == id
}

/// What is kept with a message, so that the answer finds its way back.
pub open spec fn source_tree(channel_id: Seq<char>, message_id: Seq<char>) -> JsonTree {
    JsonTree::Object(
        Map::empty().insert("channel_id"@, JsonTree::Text(channel_id)).insert(
            "source_message_id"@,
            JsonTree::Text(message_id),
        ),
    )
}

/// The message is handed on: it was written by a person, in a channel that is listened
/// to, and it mentions the bot.
pub open spec fn is_for_bot(
    msg: DiscordMessageEvent,
    bot_id: Seq<char>,
    allow_channels: Seq<Seq<char>>,
) -> bool {
    &&& !msg.author.bot
    &&& msg.author.id@ != bot_id
    &&& listens_to(allow_channels, msg.channel_id@)
    &&& event_mentions(msg, bot_id)
}

/// What is handed on for a message.
pub open spec fn incoming(msg: DiscordMessageEvent, bot_id: Seq<char>) -> IncomingView {
    IncomingView {
        channel: CHANNEL_NAME@,
        user_id: msg.author.id@,
        user_name: Some(shown_name(optional_text(msg.author.global_name), msg.author.username@)),
        content: mention_text(msg.content@, bot_id),
        metadata: source_tree(msg.channel_id@, msg.id@),
    }
}

/// What is handed on for a message, if anything.
pub open spec fn message_event(
    session: SessionView,
    msg: DiscordMessageEvent,
) -> Option<IncomingView> {
    match session.bot_user_id {
        Some(bot_id) => if is_for_bot(msg, bot_id, session.allow_channels) {
            Some(incoming(msg, bot_id))
        } else {
            None
        },
        None => None,
    }
}

/// The error of a step.
pub fn step_failure(step: SessionStep, error: &str) -> (r: String)
    ensures
        r@ == step_error(step, error@),
{
    match step {
        SessionStep::Connect => joined("connect failed: ", error),
        SessionStep::ParseHello => joined("hello parse: ", error),
        SessionStep::ReadHello => joined("hello read error: ", error),
        SessionStep::HelloPayload => joined("hello payload: ", error),
        SessionStep::SendIdentify => joined("identify send failed: ", error),
        SessionStep::Read => joined("gateway read error: ", error),
        SessionStep::Parse => joined("gateway payload parse failed: ", error),
        SessionStep::Ready => joined("READY parse failed: ", error),
        SessionStep::MessageCreate => joined("MESSAGE_CREATE parse failed: ", error),
        SessionStep::SendHeartbeat => joined("heartbeat send failed: ", error),
    }
}

/// Whether the first frame greets as it should.
pub fn check_hello(frame: &GatewayFrame) -> (r: Result<(), String>)
    ensures
        hello_error(*frame) == match r {
            Ok(()) => None,
            Err(reason) => Some(reason@),
        },
{
    match frame {
        GatewayFrame::Text(Ok(envelope)) => if envelope.op == 10 {
            Ok(())
        } else {
            Err(
                joined(
                    "expected HELLO (op=10), got op=",
                    signed_decimal_text(envelope.op).as_str(),
                ),
            )
        },
        GatewayFrame::Text(Err(error)) => Err(
            step_failure(SessionStep::ParseHello, error.as_str()),
        ),
        GatewayFrame::ReadError(error) => Err(
            step_failure(SessionStep::ReadHello, error.as_str()),
        ),
        GatewayFrame::Ended => Err("gateway closed before hello".to_owned()),
        _ => Err("expected text hello frame".to_owned()),
    }
}

/// The payload that identifies the bot.
pub fn identify_text(token: &str) -> (r: String)
    ensures
        r@ == json_text(identify_tree(token@)),
{
    let mut properties: Vec<(String, Json)> = Vec::new();
    add_entry(&mut properties, "$os", Json::text("linux"));
    add_entry(&mut properties, "$browser", Json::text("ironclaw"));
    add_entry(&mut properties, "$device", Json::text("ironclaw"));
    let mut data: Vec<(String, Json)> = Vec::new();
    add_entry(&mut data, "token", Json::text(token));
    add_entry(
        &mut data,
        "intents",
        Json::integer(INTENT_GUILD_MESSAGES + INTENT_DIRECT_MESSAGES + INTENT_MESSAGE_CONTENT),
    );
    add_entry(&mut data, "properties", Json::Object(properties));
    let mut payload: Vec<(String, Json)> = Vec::new();
    add_entry(&mut payload, "op", Json::integer(2));
    add_entry(&mut payload, "d", Json::Object(data));
    Json::Object(payload).to_text()
}

/// A heartbeat, with the last sequence number.
pub fn heartbeat_text(seq: Option<i64>) -> (r: String)
    ensures
        r@ == json_text(heartbeat_tree(seq)),
{
    let mut payload: Vec<(String, Json)> = Vec::new();
    add_entry(&mut payload, "op", Json::integer(1));
    let d = match seq {
        Some(s) => Json::integer(s),
        None => Json::Null,
    };
    add_entry(&mut payload, "d", d);
    Json::Object(payload).to_text()
}

/// The time between two heartbeats in milliseconds: at least a second.
pub fn heartbeat_interval_ms(hello: &HelloPayload) -> (r: u64)
    ensures
        r == heartbeat_pause(*hello),
{
    if hello.heartbeat_interval < 1_000 {
        1_000
    } else {
        hello.heartbeat_interval
    }
}

/// Whether the channel is listened to.
fn is_listened_to(allow_channels: &Vec<String>, channel_id: &str) -> (r: bool)
    ensures
        r == listens_to(views(allow_channels@), channel_id@),
{
    if allow_channels.len() == 0 {
        return true;
    }
    let ghost all = views(allow_channels@);
    let mut i: usize = 0;
    while i < allow_channels.len()
        invariant
            i <= allow_channels@.len(),
            all == views(allow_channels@),
            all.len() > 0,
            forall|k: int| 0 <= k < i ==> #[trigger] all[k] != channel_id@,
        decreases allow_channels@.len() - i,
    {
        assert(all[i as int] == allow_channels@[i as int]@);
        if same_text(allow_channels[i].as_str(), channel_id) {
            assert(all.contains(channel_id@));
            return true;
        }
        i = i + 1;
    }
    false
}

/// Whether the message mentions the user `id`.
fn is_mentioned(msg: &DiscordMessageEvent, id: &str) -> (r: bool)
    ensures
        r == event_mentions(*msg, id@),
{
    let mut i: usize = 0;
    while i < msg.mentions.len()
        invariant
            i <= msg.mentions@.len(),
            forall|k: int| 0 <= k < i ==> (#[trigger] msg.mentions@[k]).id@ != id@,
        decreases msg.mentions@.len() - i,
    {
        if same_text(msg.mentions[i].id.as_str(), id) {
            return true;
        }
        i = i + 1;
    }
    content_mentions(msg.content.as_str(), id)
}

/// The session ends with the error of a step.
fn end_with(step: SessionStep, error: &str) -> (action: SessionAction)
    ensures
        action@ == failed(step, error@),
{
    SessionAction::End(Err(step_failure(step, error)))
}

/// The same result once more.
fn same_result(result: &Result<(), String>) -> (r: Result<(), String>)
    ensures
        result_text(r) == result_text(*result),
{
    match result {
        Ok(()) => Ok(()),
        Err(reason) => Err(reason.clone()),
    }
}

impl GatewaySession {
    /// A session that is about to connect.
    pub fn new(token: String, allow_channels: Vec<String>) -> (r: GatewaySession)
        ensures
            r@ == (SessionView {
                token: token@,
                allow_channels: views(allow_channels@),
                greeted: false,
                seq: None,
                bot_user_id: None,
                ended: None,
            }),
    {
        GatewaySession {
            token,
            allow_channels,
            greeted: false,
            seq: None,
            bot_user_id: None,
            ended: None,
        }
    }

    /// Takes in what has happened and tells what to do next. Once the session has ended,
    /// whatever happens changes nothing.
    pub fn step(&mut self, event: SessionEvent) -> (action: SessionAction)
        ensures
            final(self)@ == session_after(old(self)@, event),
            action@ == session_action(old(self)@, event),
    {
        match &self.ended {
            Some(result) => {
                return SessionAction::End(same_result(result));
            },
            None => {},
        }
        let action = self.step_running(event);
        match &action {
            SessionAction::End(result) => {
                self.ended = Some(same_result(result));
            },
            _ => {},
        }
        action
    }

    /// Takes in what has happened to a session that runs.
    fn step_running(&mut self, event: SessionEvent) -> (action: SessionAction)
        requires
            old(self).ended is None,
        ensures
            final(self)@ == running_after(old(self)@, event),
            action@ == running_action(old(self)@, event),
    {
        match event {
            SessionEvent::Connected(Ok(())) => SessionAction::Receive,
            SessionEvent::Connected(Err(error)) => end_with(SessionStep::Connect, error.as_str()),
            SessionEvent::Received(frame) => if self.greeted {
                self.on_frame(frame)
            } else {
                match check_hello(&frame) {
                    Ok(()) => SessionAction::ReadHello,
                    Err(reason) => SessionAction::End(Err(reason)),
                }
            },
            SessionEvent::HelloRead(Ok(hello)) => {
                self.greeted = true;
                SessionAction::Identify {
                    text: identify_text(self.token.as_str()),
                    heartbeat_ms: heartbeat_interval_ms(&hello),
                }
            },
            SessionEvent::HelloRead(Err(error)) => end_with(
                SessionStep::HelloPayload,
                error.as_str(),
            ),
            SessionEvent::Identified(Ok(())) => SessionAction::Receive,
            SessionEvent::Identified(Err(error)) => end_with(
                SessionStep::SendIdentify,
                error.as_str(),
            ),
            SessionEvent::ReadyRead(Ok(ready)) => {
                self.bot_user_id = Some(ready.user.id);
                SessionAction::Receive
            },
            SessionEvent::ReadyRead(Err(error)) => end_with(SessionStep::Ready, error.as_str()),
            SessionEvent::MessageRead(Ok(msg)) => match self.on_message(&msg) {
                Some(message) => SessionAction::Deliver(message),
                None => SessionAction::Receive,
            },
            SessionEvent::MessageRead(Err(error)) => end_with(
                SessionStep::MessageCreate,
                error.as_str(),
            ),
            SessionEvent::HeartbeatSent(Ok(())) => SessionAction::Receive,
            SessionEvent::HeartbeatSent(Err(error)) => end_with(
                SessionStep::SendHeartbeat,
                error.as_str(),
            ),
            SessionEvent::Delivered(taken) => if taken {
                SessionAction::Receive
            } else {
                SessionAction::End(Ok(()))
            },
        }
    }

    /// Takes in a frame after the greeting.
    fn on_frame(&mut self, frame: GatewayFrame) -> (action: SessionAction)
        requires
            old(self).greeted,
        ensures
            final(self)@ == running_after(old(self)@, SessionEvent::Received(frame)),
            action@ == frame_action(old(self)@, frame),
    {
        match frame {
            GatewayFrame::Text(Ok(envelope)) => {
                match envelope.s {
                    Some(s) => {
                        self.seq = Some(s);
                    },
                    None => {},
                }
                if envelope.op == 0 {
                    match &envelope.t {
                        Some(event) => if same_text(event.as_str(), "READY") {
                            SessionAction::ReadReady
                        } else if same_text(event.as_str(), "MESSAGE_CREATE")
                            && self.bot_user_id.is_some() {
                            SessionAction::ReadMessage
                        } else {
                            SessionAction::Receive
                        },
                        None => SessionAction::Receive,
                    }
                } else if envelope.op == 1 {
                    SessionAction::SendHeartbeat(heartbeat_text(self.seq))
                } else if envelope.op == 7 || envelope.op == 9 {
                    SessionAction::End(
                        Err(
                            joined(
                                "gateway requested reconnect op=",
                                signed_decimal_text(envelope.op).as_str(),
                            ),
                        ),
                    )
                } else {
                    SessionAction::Receive
                }
            },
            GatewayFrame::Text(Err(error)) => end_with(SessionStep::Parse, error.as_str()),
            GatewayFrame::ReadError(error) => end_with(SessionStep::Read, error.as_str()),
            GatewayFrame::Other => SessionAction::Receive,
            GatewayFrame::Close => SessionAction::End(Ok(())),
            GatewayFrame::Ended => SessionAction::End(Ok(())),
        }
    }

    /// What is handed on for a message, if anything.
    pub fn on_message(&self, msg: &DiscordMessageEvent) -> (r: Option<IncomingMessage>)
        ensures
            message_event(self@, *msg) == match r {
                Some(message) => Some(message@),
                None => None,
            },
    {
        let bot_id = match &self.bot_user_id {
            Some(id) => id.as_str(),
            None => {
                return None;
            },
        };
        if msg.author.bot || same_text(msg.author.id.as_str(), bot_id) || !is_listened_to(
            &self.allow_channels,
            msg.channel_id.as_str(),
        ) || !is_mentioned(msg, bot_id) {
            return None;
        }
        let mut metadata: Vec<(String, Json)> = Vec::new();
        add_entry(&mut metadata, "channel_id", Json::text(msg.channel_id.as_str()));
        add_entry(&mut metadata, "source_message_id", Json::text(msg.id.as_str()));
        Some(
            IncomingMessage {
                channel: CHANNEL_NAME.to_owned(),
                user_id: msg.author.id.clone(),
                user_name: Some(display_name(&msg.author.global_name, &msg.author.username)),
                content: mention_content(msg.content.as_str(), bot_id),
                metadata: Json::Object(metadata),
            },
        )
    }
}

} // verus!
