//! What holds of a gateway session as a whole.

use vstd::prelude::*;
use crate::digits::{decimal, numbers_are_written_digit_by_digit, signed_decimal};
use crate::discord::mentions::{
    mention_text, mention_text_is_never_empty, texts_mention_by_their_characters,
};
use crate::discord::reply::{answer_tree, channel_url};
use crate::gateway::channel::{reply, ReplyView};
use crate::gateway::session::{
    event_mentions, heartbeat_tree, identify_tree, incoming, message_event, result_text, session_action,
    session_after, ActionView, GatewayFrame, GatewaySession, SessionAction, SessionEvent,
    SessionView,
};
use crate::gateway::types::{
    ChannelErrorView, DiscordMessageEvent, GatewayEnvelope, HelloPayload, ReadyPayload,
};
use crate::json::{text_field, JsonTree};
use crate::plain;
use crate::serde_bridge::json_text;

verus! {

/// A session after these events.
pub open spec fn after_events(session: SessionView, events: Seq<SessionEvent>) -> SessionView
    decreases events.len(),
{
    if events.len() == 0 {
        session
    } else {
        session_after(after_events(session, events.drop_last()), events.last())
    }
}

/// The gateway has greeted by the end of these events.
pub open spec fn has_greeted(events: Seq<SessionEvent>) -> bool {
    exists|i: int| 0 <= i < events.len() && is_greeting(#[trigger] events[i])
}

/// The event completes the greeting.
pub open spec fn is_greeting(event: SessionEvent) -> bool {
    event matches SessionEvent::HelloRead(Ok(_))
}

/// The last sequence number that an envelope carries after the greeting.
pub open spec fn last_sequence(events: Seq<SessionEvent>) -> Option<i64>
    decreases events.len(),
{
    if events.len() == 0 {
        None
    } else {
        match events.last() {
            SessionEvent::Received(GatewayFrame::Text(Ok(envelope))) => if envelope.s is Some
                && has_greeted(events.drop_last()) {
                envelope.s
            } else {
                last_sequence(events.drop_last())
            },
            _ => last_sequence(events.drop_last()),
        }
    }
}

/// Who READY has last told the bot to be.
pub open spec fn last_ready(events: Seq<SessionEvent>) -> Option<Seq<char>>
    decreases events.len(),
{
    if events.len() == 0 {
        None
    } else {
        match events.last() {
            SessionEvent::ReadyRead(Ok(ready)) => Some(ready.user.id@),
            _ => last_ready(events.drop_last()),
        }
    }
}

/// A new session.
pub open spec fn fresh(session: SessionView) -> bool {
    &&& !session.greeted
    &&& session.seq is None
    &&& session.bot_user_id is None
    &&& session.ended is None
}

/// A session that has ended stays as it is, whatever happens, and every further event is
/// answered with its end.
pub proof fn ended_sessions_stay_ended(
    session: SessionView,
    events: Seq<SessionEvent>,
    event: SessionEvent,
)
    requires
        session.ended is Some,
    ensures
        after_events(session, events) == session,
        session_action(after_events(session, events), event) == ActionView::End(session.ended->0),
    decreases events.len(),
{
    if events.len() > 0 {
        ended_sessions_stay_ended(session, events.drop_last(), event);
    }
}

/// A session has ended exactly once it was told to end.
pub proof fn sessions_end_when_they_are_told(session: SessionView, event: SessionEvent)
    ensures
        session_after(session, event).ended == match session_action(session, event) {
            ActionView::End(result) => Some(result),
            _ => None,
        },
{
}

/// Until it has ended, and with the event that ends it, a session holds the last sequence
/// number that it was sent, which is what its heartbeats carry, and the last ID that READY
/// gave the bot; its token and its channels stay.
pub proof fn sessions_keep_what_they_are_told(session: SessionView, events: Seq<SessionEvent>)
    requires
        fresh(session),
        events.len() > 0 ==> after_events(session, events.drop_last()).ended is None,
    ensures
        after_events(session, events) == (SessionView {
            token: session.token,
            allow_channels: session.allow_channels,
            greeted: has_greeted(events),
            seq: last_sequence(events),
            bot_user_id: last_ready(events),
            ended: after_events(session, events).ended,
        }),
    decreases events.len(),
{
    if events.len() > 0 {
        let before = events.drop_last();
        sessions_keep_what_they_are_told(session, before);
        assert(events[events.len() - 1] == events.last());
        if has_greeted(before) {
            let i = choose|i: int| 0 <= i < before.len() && is_greeting(#[trigger] before[i]);
            assert(events[i] == before[i]);
        }
        if has_greeted(events) && !is_greeting(events.last()) {
            let i = choose|i: int| 0 <= i < events.len() && is_greeting(#[trigger] events[i]);
            assert(before[i] == events[i]);
        }
    }
}

/// A heartbeat that the gateway asks for carries the last sequence number, that of the
/// asking envelope included.
pub proof fn heartbeats_carry_the_last_sequence(
    session: SessionView,
    events: Seq<SessionEvent>,
    envelope: GatewayEnvelope,
)
    requires
        fresh(session),
        after_events(session, events).ended is None,
        has_greeted(events),
        envelope.op == 1,
    ensures
        ({
            let asked = SessionEvent::Received(GatewayFrame::Text(Ok(envelope)));
            session_action(after_events(session, events), asked) == ActionView::SendHeartbeat(
                json_text(heartbeat_tree(last_sequence(events.push(asked)))),
            )
        }),
{
    let asked = SessionEvent::Received(GatewayFrame::Text(Ok(envelope)));
    sessions_keep_what_they_are_told(session, events);
    assert(events.push(asked).drop_last() == events);
}

/// Before READY has told who the bot is nothing is handed on, and no message is even
/// read.
pub proof fn nothing_is_handed_on_before_ready(
    session: SessionView,
    events: Seq<SessionEvent>,
    event: SessionEvent,
)
    requires
        fresh(session),
        last_ready(events) is None,
    ensures
        !(session_action(after_events(session, events), event) is Deliver),
        !(session_action(after_events(session, events), event) is ReadMessage),
{
    if after_events(session, events).ended is None {
        sessions_keep_what_they_are_told(session, events);
    }
}

/// Nothing but the greeting is taken from a gateway that has not greeted: any other
/// frame ends the session with an error.
pub proof fn sessions_begin_with_the_greeting(session: SessionView, frame: GatewayFrame)
    requires
        session.ended is None,
        !session.greeted,
    ensures
        match session_action(session, SessionEvent::Received(frame)) {
            ActionView::ReadHello => frame matches GatewayFrame::Text(Ok(envelope)) && envelope.op
                == 10,
            ActionView::End(Err(_)) => true,
            _ => false,
        },
{
}

/// While a session runs, a message is handed on exactly where READY has told who the bot is, another person
/// than the bot has written it, the channel is listened to, and the bot is mentioned.
/// What is handed on has a text.
pub proof fn only_mentions_by_people_are_handed_on(
    session: SessionView,
    msg: DiscordMessageEvent,
)
    requires
        session.ended is None,
    ensures
        session_action(session, SessionEvent::MessageRead(Ok(msg))) is Deliver <==> {
            &&& session.bot_user_id is Some
            &&& !msg.author.bot
            &&& msg.author.id@ != session.bot_user_id->0
            &&& session.allow_channels.len() == 0 || session.allow_channels.contains(
                msg.channel_id@,
            )
            &&& event_mentions(msg, session.bot_user_id->0)
        },
        message_event(session, msg) matches Some(message) ==> message.content.len() > 0,
{
    if session.bot_user_id is Some {
        mention_text_is_never_empty(msg.content@, session.bot_user_id->0);
    }
}

/// A session that runs ends in order exactly where the gateway closes the connection after its
/// greeting, or where nobody is left to take a message.
pub proof fn sessions_end_in_order(session: SessionView, event: SessionEvent)
    requires
        session.ended is None,
    ensures
        session_action(session, event) == ActionView::End(Ok::<(), Seq<char>>(())) <==> {
            ||| session.greeted && event == SessionEvent::Received(GatewayFrame::Close)
            ||| session.greeted && event == SessionEvent::Received(GatewayFrame::Ended)
            ||| event == SessionEvent::Delivered(false)
        },
{
}

/// The reply to a message that was handed on goes to its channel and refers to it.
pub proof fn replies_reach_their_message(
    msg: DiscordMessageEvent,
    bot_id: Seq<char>,
    content: Seq<char>,
)
    ensures
        reply(incoming(msg, bot_id).metadata, content) == Ok::<_, ChannelErrorView>(
            ReplyView {
                url: channel_url(msg.channel_id@),
                body: json_text(answer_tree(content, None, Some(msg.id@))),
            },
        ),
{
    reveal_strlit("channel_id");
    reveal_strlit("source_message_id");
    assert("channel_id"@.len() == 10);
    assert("source_message_id"@.len() == 17);
    let metadata = incoming(msg, bot_id).metadata;
    assert(text_field(metadata, "channel_id"@) == Some(msg.channel_id@));
    assert(text_field(metadata, "source_message_id"@) == Some(msg.id@));
}

/// The channel sends only to where a message came from: without a channel in the
/// metadata nothing is sent.
pub proof fn no_channel_no_reply(metadata: crate::json::JsonTree, content: Seq<char>)
    requires
        text_field(metadata, "channel_id"@) is None,
    ensures
        reply(metadata, content) is Err,
{
}

/// While a session runs, a message is delivered exactly where READY has told who the bot is,
/// no bot and not the bot itself wrote it, the channel is named or none is, and an entry of
/// its list of mentions has the bot's ID or `<@ID>` or `<@!ID>` stands in its text, character
/// by character.
pub proof fn messages_are_delivered_exactly_where_they_mention_the_bot(
    session: SessionView,
    msg: DiscordMessageEvent,
)
    requires
        session.ended is None,
    ensures
        session_action(session, SessionEvent::MessageRead(Ok(msg))) is Deliver <==> {
            &&& session.bot_user_id is Some
            &&& msg.author.bot == false
            &&& msg.author.id@ != session.bot_user_id->0
            &&& session.allow_channels.len() == 0 || exists|k: int|
                0 <= k < session.allow_channels.len() && #[trigger] session.allow_channels[k]
                    == msg.channel_id@
            &&& (exists|k: int|
                0 <= k < msg.mentions@.len() && (#[trigger] msg.mentions@[k]).id@
                    == session.bot_user_id->0) || plain::stands_in(
                msg.content@,
                plain::tag(session.bot_user_id->0),
            ) || plain::stands_in(msg.content@, plain::nick_tag(session.bot_user_id->0))
        },
        !(session_action(session, SessionEvent::MessageRead(Ok(msg))) is Deliver)
            ==> session_action(session, SessionEvent::MessageRead(Ok(msg))) is Receive,
{
    if session.bot_user_id is Some {
        texts_mention_by_their_characters(msg.content@, session.bot_user_id->0);
        if session.allow_channels.contains(msg.channel_id@) {
            let k = choose|k: int|
                0 <= k < session.allow_channels.len() && session.allow_channels[k]
                    == msg.channel_id@;
            assert(session.allow_channels[k] == msg.channel_id@);
        }
    }
}

/// What is delivered tells who wrote the message, what is left of its text, and where the
/// reply has to go, and nothing else.
pub proof fn deliveries_tell_of_their_message(
    session: SessionView,
    msg: DiscordMessageEvent,
)
    requires
        session.ended is None,
    ensures
        session_action(session, SessionEvent::MessageRead(Ok(msg))) matches ActionView::Deliver(
            message,
        ) ==> {
            &&& message.channel == "discord-gateway"@
            &&& message.user_id == msg.author.id@
            &&& plain::is_name(message.user_name, msg.author.global_name, msg.author.username@)
            &&& message.content == mention_text(msg.content@, session.bot_user_id->0)
            &&& forall|key: Seq<char>| #[trigger]
                plain::field(message.metadata, key) == if key == "channel_id"@ {
                    Some(JsonTree::Text(msg.channel_id@))
                } else if key == "source_message_id"@ {
                    Some(JsonTree::Text(msg.id@))
                } else {
                    None
                }
        },
{
    reveal_strlit("channel_id");
    reveal_strlit("source_message_id");
    assert("channel_id"@.len() == 10);
    assert("source_message_id"@.len() == 17);
    match msg.author.global_name {
        Some(global) => {
            if global@.len() == 0 {
                assert(global@ =~= Seq::<char>::empty());
            }
        },
        None => {},
    }
}

/// The object that identifies the bot: the operation, and under `d` the token unchanged, the
/// intents and the properties of the client, and nothing else.
pub open spec fn identifies(tree: JsonTree, token: Seq<char>) -> bool {
    &&& plain::field(tree, "op"@) == Some(JsonTree::Number(seq!['2']))
    &&& forall|key: Seq<char>| #[trigger]
        plain::field(tree, key) is Some ==> key == "op"@ || key == "d"@
    &&& plain::field(tree, "d"@) is Some
    &&& {
        let data = plain::field(tree, "d"@)->0;
        &&& plain::text_under(data, "token"@) == Some(token)
        &&& plain::field(data, "intents"@) == Some(
            JsonTree::Number(seq!['3', '7', '3', '7', '6']),
        )
        &&& forall|key: Seq<char>| #[trigger]
            plain::field(data, key) is Some ==> key == "token"@ || key == "intents"@ || key
                == "properties"@
        &&& plain::field(data, "properties"@) is Some
        &&& forall|key: Seq<char>| #[trigger]
            plain::field(plain::field(data, "properties"@)->0, key) == if key == "$os"@ {
                Some(JsonTree::Text("linux"@))
            } else if key == "$browser"@ || key == "$device"@ {
                Some(JsonTree::Text("ironclaw"@))
            } else {
                None
            }
    }
}

/// A greeting is answered by identifying the bot with its token and by heartbeats at the
/// interval that the gateway asks for, but not more often than once a second.
pub proof fn greetings_are_answered_with_the_token(session: SessionView, hello: HelloPayload)
    requires
        session.ended is None,
    ensures
        match session_action(session, SessionEvent::HelloRead(Ok(hello))) {
            ActionView::Identify { text, heartbeat_ms } => {
                &&& exists|tree: JsonTree|
                    text == #[trigger] json_text(tree) && identifies(tree, session.token)
                &&& heartbeat_ms >= 1_000 && heartbeat_ms >= hello.heartbeat_interval
                &&& heartbeat_ms == 1_000 || heartbeat_ms == hello.heartbeat_interval
            },
            _ => false,
        },
{
    reveal_strlit("op");
    reveal_strlit("d");
    reveal_strlit("token");
    reveal_strlit("intents");
    reveal_strlit("properties");
    reveal_strlit("$os");
    reveal_strlit("$browser");
    reveal_strlit("$device");
    assert("op"@.len() == 2 && "d"@.len() == 1);
    assert("token"@.len() == 5 && "intents"@.len() == 7 && "properties"@.len() == 10);
    assert("$os"@.len() == 3 && "$browser"@.len() == 8 && "$device"@.len() == 7);
    lemma_intents();
    let tree = identify_tree(session.token);
    assert(identifies(tree, session.token));
    assert(json_text(tree) == json_text(identify_tree(session.token)));
}

proof fn lemma_intents()
    ensures
        signed_decimal(2) == seq!['2'],
        signed_decimal(37376) == seq!['3', '7', '3', '7', '6'],
{
    numbers_are_written_digit_by_digit(0, 2);
    numbers_are_written_digit_by_digit(0, 3);
    numbers_are_written_digit_by_digit(0, 7);
    numbers_are_written_digit_by_digit(0, 6);
    numbers_are_written_digit_by_digit(3, 7);
    numbers_are_written_digit_by_digit(37, 3);
    numbers_are_written_digit_by_digit(373, 7);
    numbers_are_written_digit_by_digit(3737, 6);
    assert(decimal(37376) =~= seq!['3', '7', '3', '7', '6']);
}

/// A heartbeat carries its operation and the sequence number, or `null` where there is none.
pub proof fn heartbeats_carry_their_number(seq_number: Option<i64>, key: Seq<char>)
    ensures
        plain::field(heartbeat_tree(seq_number), key) == if key == "op"@ {
            Some(JsonTree::Number(seq!['1']))
        } else if key == "d"@ {
            Some(
                match seq_number {
                    Some(s) => JsonTree::Number(signed_decimal(s as int)),
                    None => JsonTree::Null,
                },
            )
        } else {
            None
        },
{
    reveal_strlit("op");
    reveal_strlit("d");
    assert("op"@.len() == 2 && "d"@.len() == 1);
    numbers_are_written_digit_by_digit(0, 1);
    assert(signed_decimal(1) =~= seq!['1']);
}

/// What a session that runs does about an envelope after the greeting goes by its operation
/// and its event: READY is read; a message is read once the bot is known; a heartbeat is
/// answered with the last sequence number; a request to reconnect ends the session; and
/// anything else is passed over.
pub proof fn envelopes_are_handled_by_their_operation(
    session: SessionView,
    envelope: GatewayEnvelope,
)
    requires
        session.ended is None,
        session.greeted,
    ensures
        ({
            let event = SessionEvent::Received(GatewayFrame::Text(Ok(envelope)));
            let action = session_action(session, event);
            let number = if envelope.s is Some {
                envelope.s
            } else {
                session.seq
            };
            &&& session_after(session, event).seq == number
            &&& action is ReadReady <==> envelope.op == 0 && envelope.t is Some && envelope.t->0@
                == "READY"@
            &&& action is ReadMessage <==> envelope.op == 0 && envelope.t is Some
                && envelope.t->0@ == "MESSAGE_CREATE"@ && session.bot_user_id is Some
            &&& action is SendHeartbeat <==> envelope.op == 1
            &&& action matches ActionView::SendHeartbeat(text) ==> text == json_text(
                heartbeat_tree(number),
            )
            &&& action is End <==> envelope.op == 7 || envelope.op == 9
            &&& action matches ActionView::End(result) ==> result == Err::<(), _>(
                "gateway requested reconnect op="@ + if envelope.op == 7 {
                    seq!['7']
                } else {
                    seq!['9']
                },
            )
            &&& !(action is ReadReady || action is ReadMessage || action is SendHeartbeat
                || action is End) ==> action is Receive
        }),
{
    reveal_strlit("READY");
    reveal_strlit("MESSAGE_CREATE");
    assert("READY"@.len() == 5);
    assert("MESSAGE_CREATE"@.len() == 14);
    numbers_are_written_digit_by_digit(0, 7);
    numbers_are_written_digit_by_digit(0, 9);
    assert(signed_decimal(7) =~= seq!['7']);
    assert(signed_decimal(9) =~= seq!['9']);
}

/// What fails ends the session with an error that says what failed and why, in these words.
pub proof fn failures_end_the_session_with_their_reason(session: SessionView, error: String)
    requires
        session.ended is None,
    ensures
        ends_with(session, SessionEvent::Connected(Err(error)), "connect failed: "@ + error@),
        ends_with(session, SessionEvent::HelloRead(Err(error)), "hello payload: "@ + error@),
        ends_with(
            session,
            SessionEvent::Identified(Err(error)),
            "identify send failed: "@ + error@,
        ),
        ends_with(session, SessionEvent::ReadyRead(Err(error)), "READY parse failed: "@ + error@),
        ends_with(
            session,
            SessionEvent::MessageRead(Err(error)),
            "MESSAGE_CREATE parse failed: "@ + error@,
        ),
        ends_with(
            session,
            SessionEvent::HeartbeatSent(Err(error)),
            "heartbeat send failed: "@ + error@,
        ),
        ends_with(
            session,
            SessionEvent::Received(GatewayFrame::ReadError(error)),
            if session.greeted {
                "gateway read error: "@ + error@
            } else {
                "hello read error: "@ + error@
            },
        ),
        ends_with(
            session,
            SessionEvent::Received(GatewayFrame::Text(Err(error))),
            if session.greeted {
                "gateway payload parse failed: "@ + error@
            } else {
                "hello parse: "@ + error@
            },
        ),
{
}

/// The event ends the session with this error.
pub open spec fn ends_with(session: SessionView, event: SessionEvent, reason: Seq<char>) -> bool {
    session_action(session, event) == ActionView::End(Err::<(), Seq<char>>(reason))
}

/// Before the greeting only an envelope with operation 10 is taken; any other frame ends the
/// session with an error that says what came instead.
pub proof fn greetings_have_operation_ten(session: SessionView, envelope: GatewayEnvelope)
    requires
        session.ended is None,
        !session.greeted,
    ensures
        ({
            let event = SessionEvent::Received(GatewayFrame::Text(Ok(envelope)));
            &&& envelope.op == 10 ==> session_action(session, event) is ReadHello
            &&& envelope.op != 10 ==> ends_with(
                session,
                event,
                "expected HELLO (op=10), got op="@ + signed_decimal(envelope.op as int),
            )
            &&& session_after(session, event).seq == session.seq
        }),
        ends_with(
            session,
            SessionEvent::Received(GatewayFrame::Ended),
            "gateway closed before hello"@,
        ),
        ends_with(
            session,
            SessionEvent::Received(GatewayFrame::Close),
            "expected text hello frame"@,
        ),
        ends_with(
            session,
            SessionEvent::Received(GatewayFrame::Other),
            "expected text hello frame"@,
        ),
{
}

/// What succeeds lets the session go on to the next frame, and a frame that is no text is
/// passed over; none of this changes what the session knows.
pub proof fn sessions_go_on_after_success(session: SessionView, ready: ReadyPayload)
    requires
        session.ended is None,
    ensures
        goes_on(session, SessionEvent::Connected(Ok(())), session),
        goes_on(session, SessionEvent::Identified(Ok(())), session),
        goes_on(session, SessionEvent::HeartbeatSent(Ok(())), session),
        goes_on(session, SessionEvent::Delivered(true), session),
        session.greeted ==> goes_on(session, SessionEvent::Received(GatewayFrame::Other), session),
        goes_on(
            session,
            SessionEvent::ReadyRead(Ok(ready)),
            SessionView { bot_user_id: Some(ready.user.id@), ..session },
        ),
{
}

/// The event lets the session go on, and it knows then what `after` knows.
pub open spec fn goes_on(session: SessionView, event: SessionEvent, after: SessionView) -> bool {
    session_action(session, event) is Receive && session_after(session, event) == after
}

/// What a session and an action say is what they hold.
pub proof fn sessions_say_what_they_hold(
    session: GatewaySession,
    action: SessionAction,
    reason: String,
)
    ensures
        session@.token == session.token@,
        session@.allow_channels.len() == session.allow_channels@.len(),
        forall|i: int|
            0 <= i < session.allow_channels@.len() ==> session@.allow_channels[i] == (
            #[trigger] session.allow_channels@[i])@,
        session@.greeted == session.greeted,
        session@.seq == session.seq,
        session.bot_user_id is None ==> session@.bot_user_id is None,
        session.bot_user_id matches Some(id) ==> session@.bot_user_id == Some(id@),
        session.ended is None ==> session@.ended is None,
        session.ended matches Some(result) ==> session@.ended == Some(result_text(result)),
        result_text(Ok(())) == Ok::<(), Seq<char>>(()),
        result_text(Err(reason)) == Err::<(), _>(reason@),
        match action {
            SessionAction::Receive => action@ is Receive,
            SessionAction::ReadHello => action@ is ReadHello,
            SessionAction::Identify { text, heartbeat_ms } => action@ == (ActionView::Identify {
                text: text@,
                heartbeat_ms,
            }),
            SessionAction::ReadReady => action@ is ReadReady,
            SessionAction::ReadMessage => action@ is ReadMessage,
            SessionAction::SendHeartbeat(text) => action@ == ActionView::SendHeartbeat(text@),
            SessionAction::Deliver(message) => action@ == ActionView::Deliver(message@),
            SessionAction::End(result) => action@ == ActionView::End(result_text(result)),
        },
{
}

} // verus!
