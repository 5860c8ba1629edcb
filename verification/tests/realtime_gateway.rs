use ironclaw::gateway::backoff::Backoff;
use ironclaw::gateway::channel::{
    authorization_header, client_failure, health_check, reply_outcome, respond, respond_result,
};
use ironclaw::gateway::lifecycle::Lifecycle;
use ironclaw::gateway::session::{
    check_hello, heartbeat_interval_ms, heartbeat_text, identify_text, step_failure,
    GatewayFrame, GatewaySession, SessionAction, SessionEvent, SessionStep,
};
use ironclaw::gateway::types::{
    ChannelError, DiscordAuthor, DiscordMention, DiscordMessageEvent, GatewayEnvelope,
    HelloPayload, ReadyPayload, RealtimeGatewayConfig, CHANNEL_NAME,
};
use ironclaw::json::Json;

fn author(id: &str, bot: bool) -> DiscordAuthor {
    DiscordAuthor {
        id: id.to_string(),
        username: "user".to_string(),
        global_name: Some("Shown".to_string()),
        bot,
    }
}

fn message(author: DiscordAuthor, channel: &str, content: &str) -> DiscordMessageEvent {
    DiscordMessageEvent {
        id: "m1".to_string(),
        channel_id: channel.to_string(),
        guild_id: None,
        content: content.to_string(),
        author,
        mentions: vec![],
    }
}

fn envelope(op: i64, s: Option<i64>, t: Option<&str>) -> SessionEvent {
    SessionEvent::Received(GatewayFrame::Text(Ok(GatewayEnvelope {
        op,
        s,
        t: t.map(|s| s.to_string()),
    })))
}

fn error(text: &str) -> Result<(), String> {
    Err(text.to_string())
}

fn ended(action: SessionAction) -> Result<(), String> {
    match action {
        SessionAction::End(result) => result,
        other => panic!("{other:?}"),
    }
}

/// A session that has been greeted, and that knows that the bot is 42.
fn running(channels: Vec<&str>) -> GatewaySession {
    let mut session = GatewaySession::new(
        "tok".to_string(),
        channels.into_iter().map(|c| c.to_string()).collect(),
    );
    session.step(SessionEvent::HelloRead(Ok(HelloPayload {
        heartbeat_interval: 41250,
    })));
    session.step(SessionEvent::ReadyRead(Ok(ReadyPayload {
        user: author("42", true),
    })));
    session
}

#[test]
fn a_session_from_greeting_to_end() {
    let mut session = GatewaySession::new("tok".to_string(), vec![]);
    assert!(matches!(
        session.step(SessionEvent::Connected(Ok(()))),
        SessionAction::Receive
    ));
    assert!(matches!(
        session.step(envelope(10, None, None)),
        SessionAction::ReadHello
    ));
    match session.step(SessionEvent::HelloRead(Ok(HelloPayload {
        heartbeat_interval: 41250,
    }))) {
        SessionAction::Identify { text, heartbeat_ms } => {
            assert_eq!(
                text,
                r#"{"d":{"intents":37376,"properties":{"$browser":"ironclaw","$device":"ironclaw","$os":"linux"},"token":"tok"},"op":2}"#
            );
            assert_eq!(heartbeat_ms, 41250);
        }
        other => panic!("{other:?}"),
    }
    assert!(matches!(
        session.step(SessionEvent::Identified(Ok(()))),
        SessionAction::Receive
    ));
    // Before READY no message is read.
    assert!(matches!(
        session.step(envelope(0, Some(1), Some("MESSAGE_CREATE"))),
        SessionAction::Receive
    ));
    assert!(matches!(
        session.step(envelope(0, Some(2), Some("READY"))),
        SessionAction::ReadReady
    ));
    assert!(matches!(
        session.step(SessionEvent::ReadyRead(Ok(ReadyPayload {
            user: author("42", true)
        }))),
        SessionAction::Receive
    ));
    assert!(matches!(
        session.step(envelope(0, Some(3), Some("MESSAGE_CREATE"))),
        SessionAction::ReadMessage
    ));
    match session.step(SessionEvent::MessageRead(Ok(message(
        author("7", false),
        "c1",
        "<@42> hello",
    )))) {
        SessionAction::Deliver(incoming) => {
            assert_eq!(incoming.channel, "discord-gateway");
            assert_eq!(incoming.user_id, "7");
            assert_eq!(incoming.user_name.as_deref(), Some("Shown"));
            assert_eq!(incoming.content, "hello");
            assert_eq!(
                incoming.metadata.to_text(),
                r#"{"channel_id":"c1","source_message_id":"m1"}"#
            );
        }
        other => panic!("{other:?}"),
    }
    assert!(matches!(
        session.step(SessionEvent::Delivered(true)),
        SessionAction::Receive
    ));
    match session.step(envelope(1, None, None)) {
        SessionAction::SendHeartbeat(text) => assert_eq!(text, r#"{"d":3,"op":1}"#),
        other => panic!("{other:?}"),
    }
    assert!(matches!(
        session.step(SessionEvent::HeartbeatSent(Ok(()))),
        SessionAction::Receive
    ));
    assert_eq!(
        ended(session.step(SessionEvent::Received(GatewayFrame::Close))),
        Ok(())
    );
}

#[test]
fn greetings_that_are_none() {
    let parse = GatewayFrame::Text(Err("eof".to_string()));
    assert_eq!(check_hello(&parse), error("hello parse: eof"));
    assert_eq!(
        check_hello(&GatewayFrame::Other),
        error("expected text hello frame")
    );
    assert_eq!(
        check_hello(&GatewayFrame::Close),
        error("expected text hello frame")
    );
    assert_eq!(
        check_hello(&GatewayFrame::ReadError("reset".to_string())),
        error("hello read error: reset")
    );
    assert_eq!(
        check_hello(&GatewayFrame::Ended),
        error("gateway closed before hello")
    );
    let fresh = || GatewaySession::new(String::new(), vec![]);
    let mut session = fresh();
    assert_eq!(
        ended(session.step(envelope(-3, Some(9), None))),
        error("expected HELLO (op=10), got op=-3")
    );
    // The sequence number of a greeting is not noted.
    assert!(session.seq.is_none());
    assert_eq!(
        ended(fresh().step(SessionEvent::Connected(error("dns")))),
        error("connect failed: dns")
    );
    assert_eq!(
        ended(fresh().step(SessionEvent::HelloRead(Err("no field".to_string())))),
        error("hello payload: no field")
    );
    assert_eq!(
        ended(fresh().step(SessionEvent::Identified(error("gone")))),
        error("identify send failed: gone")
    );
}

#[test]
fn frames_of_a_running_session() {
    let mut session = running(vec![]);
    for op in [7, 9] {
        assert_eq!(
            ended(running(vec![]).step(envelope(op, None, None))),
            Err(format!("gateway requested reconnect op={op}"))
        );
    }
    assert!(matches!(
        session.step(envelope(11, Some(5), None)),
        SessionAction::Receive
    ));
    assert_eq!(session.seq, Some(5));
    assert!(matches!(
        session.step(envelope(0, None, Some("TYPING_START"))),
        SessionAction::Receive
    ));
    assert!(matches!(
        session.step(envelope(0, None, None)),
        SessionAction::Receive
    ));
    assert_eq!(session.seq, Some(5));
    assert!(matches!(
        session.step(SessionEvent::Received(GatewayFrame::Other)),
        SessionAction::Receive
    ));
    assert_eq!(
        ended(running(vec![]).step(SessionEvent::Received(GatewayFrame::Ended))),
        Ok(())
    );
    assert_eq!(
        ended(running(vec![]).step(SessionEvent::Received(GatewayFrame::ReadError(
            "reset".to_string()
        )))),
        error("gateway read error: reset")
    );
    assert_eq!(
        ended(running(vec![]).step(SessionEvent::Received(GatewayFrame::Text(Err(
            "bad".to_string()
        ))))),
        error("gateway payload parse failed: bad")
    );
    assert_eq!(
        ended(running(vec![]).step(SessionEvent::ReadyRead(Err("x".to_string())))),
        error("READY parse failed: x")
    );
    assert_eq!(session.bot_user_id.as_deref(), Some("42"));
    assert_eq!(
        ended(running(vec![]).step(SessionEvent::MessageRead(Err("y".to_string())))),
        error("MESSAGE_CREATE parse failed: y")
    );
    assert_eq!(
        ended(running(vec![]).step(SessionEvent::HeartbeatSent(error("z")))),
        error("heartbeat send failed: z")
    );
    assert_eq!(ended(running(vec![]).step(SessionEvent::Delivered(false))), Ok(()));
}

#[test]
fn only_mentions_by_people_in_listened_channels() {
    let session = running(vec!["c1", "c2"]);
    let delivered = |msg: DiscordMessageEvent| session.on_message(&msg).is_some();
    assert!(delivered(message(author("7", false), "c2", "x <@!42>")));
    assert!(!delivered(message(author("7", false), "c3", "<@42>")));
    assert!(!delivered(message(author("7", true), "c1", "<@42>")));
    assert!(!delivered(message(author("42", false), "c1", "<@42>")));
    assert!(!delivered(message(author("7", false), "c1", "hello")));
    let mut listed = message(author("7", false), "c1", "hello");
    listed.mentions = vec![DiscordMention {
        id: "42".to_string(),
    }];
    assert_eq!(session.on_message(&listed).unwrap().content, "hello");
    let bare = message(author("7", false), "c1", " <@42> ");
    assert_eq!(session.on_message(&bare).unwrap().content, "mention");
    // Without a list every channel is listened to.
    assert!(running(vec![])
        .on_message(&message(author("7", false), "c9", "<@42>"))
        .is_some());
    let unready = GatewaySession::new(String::new(), vec![]);
    assert!(unready
        .on_message(&message(author("7", false), "c1", "<@42>"))
        .is_none());
}

#[test]
fn heartbeats() {
    assert_eq!(heartbeat_text(None), r#"{"d":null,"op":1}"#);
    assert_eq!(heartbeat_text(Some(-1)), r#"{"d":-1,"op":1}"#);
    for (given, expected) in [(0, 1_000), (999, 1_000), (1_000, 1_000), (41_250, 41_250)] {
        assert_eq!(
            heartbeat_interval_ms(&HelloPayload {
                heartbeat_interval: given
            }),
            expected
        );
    }
    assert!(identify_text("a\"b").contains(r#""token":"a\"b""#));
}

#[test]
fn errors_of_every_step() {
    for (step, expected) in [
        (SessionStep::Connect, "connect failed: e"),
        (SessionStep::ParseHello, "hello parse: e"),
        (SessionStep::ReadHello, "hello read error: e"),
        (SessionStep::HelloPayload, "hello payload: e"),
        (SessionStep::SendIdentify, "identify send failed: e"),
        (SessionStep::Read, "gateway read error: e"),
        (SessionStep::Parse, "gateway payload parse failed: e"),
        (SessionStep::Ready, "READY parse failed: e"),
        (SessionStep::MessageCreate, "MESSAGE_CREATE parse failed: e"),
        (SessionStep::SendHeartbeat, "heartbeat send failed: e"),
    ] {
        assert_eq!(step_failure(step, "e"), expected);
    }
}

#[test]
fn waits_double_and_start_anew() {
    let mut backoff = Backoff::new();
    for expected in [1, 2, 4, 8, 16, 30, 30, 30] {
        assert_eq!(backoff.after_session(false), Some(expected));
    }
    assert_eq!(backoff.after_session(true), None);
    assert_eq!(backoff.after_session(false), Some(1));
    assert_eq!(backoff.after_session(false), Some(2));
}

#[test]
fn tokens_in_headers() {
    let config = |token: &str| RealtimeGatewayConfig {
        token: token.to_string(),
        mention_channel_ids: vec![],
    };
    let value = authorization_header(&config("abc.DEF")).unwrap();
    assert_eq!(value.as_bytes(), b"Bot abc.DEF");
    assert_eq!(
        authorization_header(&config("a\tö")).unwrap().as_bytes(),
        "Bot a\tö".as_bytes()
    );
    for bad in ["a\n", "\u{0}", "x\u{7f}"] {
        match authorization_header(&config(bad)) {
            Err(ChannelError::StartupFailed { name, reason }) => {
                assert_eq!(name, "discord-gateway");
                assert_eq!(
                    reason,
                    "invalid bot token header: failed to parse header value"
                );
            }
            other => panic!("{other:?}"),
        }
    }
    match client_failure("no tls") {
        ChannelError::StartupFailed { name, reason } => {
            assert_eq!(name, CHANNEL_NAME);
            assert_eq!(reason, "failed to create HTTP client: no tls");
        }
        other => panic!("{other:?}"),
    }
}

#[test]
fn replies() {
    let metadata = |text: &str| Json::parse(text.as_bytes()).unwrap();
    let full = respond(
        &metadata(r#"{"channel_id":"c1","source_message_id":"m1"}"#),
        "hi",
    )
    .unwrap();
    assert_eq!(full.url, "https://discord.com/api/v10/channels/c1/messages");
    assert_eq!(
        full.body,
        r#"{"allowed_mentions":{"replied_user":true},"content":"hi","message_reference":{"message_id":"m1"}}"#
    );
    let plain = respond(&metadata(r#"{"channel_id":"c1","source_message_id":5}"#), "hi").unwrap();
    assert_eq!(plain.body, r#"{"content":"hi"}"#);
    for text in ["{}", r#"{"channel_id":1}"#, "null"] {
        match respond(&metadata(text), "hi") {
            Err(ChannelError::SendFailed { name, reason }) => {
                assert_eq!(name, "discord-gateway");
                assert_eq!(reason, "missing metadata.channel_id");
            }
            other => panic!("{other:?}"),
        }
    }
}

#[test]
fn a_reply_goes_back_to_its_message() {
    let incoming = running(vec![])
        .on_message(&message(author("7", false), "c9", "<@42> x"))
        .unwrap();
    let reply = respond(&incoming.metadata, "answer").unwrap();
    assert_eq!(reply.url, "https://discord.com/api/v10/channels/c9/messages");
    assert!(reply.body.contains(r#""message_reference":{"message_id":"m1"}"#));
}

#[test]
fn results_of_replies_and_health() {
    assert!(respond_result(204, "").is_ok());
    assert!(reply_outcome(299, "x", "").is_ok());
    match reply_outcome(300, "shown", "body") {
        Err(ChannelError::SendFailed { name, reason }) => {
            assert_eq!(name, "discord-gateway");
            assert_eq!(reason, "discord API error shown: body");
        }
        other => panic!("{other:?}"),
    }
    match respond_result(999, "") {
        Err(ChannelError::SendFailed { reason, .. }) => {
            assert_eq!(reason, "discord API error 999 <unknown status code>: ");
        }
        other => panic!("{other:?}"),
    }
    match respond_result(403, "no") {
        Err(ChannelError::SendFailed { name, reason }) => {
            assert_eq!(name, "discord-gateway");
            assert_eq!(reason, "discord API error 403 Forbidden: no");
        }
        other => panic!("{other:?}"),
    }
    assert!(health_check(Some(false)).is_ok());
    for task in [None, Some(true)] {
        assert!(matches!(
            health_check(task),
            Err(ChannelError::HealthCheckFailed { name }) if name == "discord-gateway"
        ));
    }
}

#[test]
fn ended_sessions_stay_ended() {
    let mut session = running(vec![]);
    assert_eq!(
        ended(session.step(envelope(7, Some(4), None))),
        error("gateway requested reconnect op=7")
    );
    assert_eq!(session.ended, Some(error("gateway requested reconnect op=7")));
    for event in [
        envelope(1, Some(9), None),
        SessionEvent::Received(GatewayFrame::Close),
        SessionEvent::ReadyRead(Ok(ReadyPayload {
            user: author("43", true),
        })),
        SessionEvent::MessageRead(Ok(message(author("7", false), "c1", "<@42> x"))),
    ] {
        assert_eq!(
            ended(session.step(event)),
            error("gateway requested reconnect op=7")
        );
    }
    assert_eq!(session.seq, Some(4));
    assert_eq!(session.bot_user_id.as_deref(), Some("42"));

    let mut closed = running(vec![]);
    assert_eq!(
        ended(closed.step(SessionEvent::Received(GatewayFrame::Ended))),
        Ok(())
    );
    assert_eq!(ended(closed.step(envelope(9, None, None))), Ok(()));
}

#[test]
fn healthy_while_started() {
    let healthy = |channel: &Lifecycle| match channel.health_check(false) {
        Ok(()) => true,
        Err(ChannelError::HealthCheckFailed { name }) => {
            assert_eq!(name, "discord-gateway");
            false
        }
        Err(other) => panic!("{other:?}"),
    };
    let mut channel = Lifecycle::new();
    assert!(!healthy(&channel));
    channel.start();
    assert!(healthy(&channel));
    assert!(channel.health_check(true).is_err());
    channel.start();
    assert!(healthy(&channel));
    channel.shutdown();
    assert!(!healthy(&channel));
    channel.start();
    assert!(healthy(&channel));

    let mut never = Lifecycle::new();
    never.shutdown();
    assert!(!healthy(&never));
}
