use ironclaw::discord::config::{
    channel_config, config_or_default, default_poll_interval_ms, is_polling, on_start,
    DiscordRuntimeConfig,
};
use ironclaw::discord::interaction::{
    body_text, handle_message_component, handle_slash_command, metadata_failure_notice,
    on_http_request,
};
use ironclaw::discord::reply::answer_request;
use ironclaw::discord::types::{
    DiscordCommandData, DiscordCommandOption, DiscordInteraction, DiscordMember, DiscordMessage,
    DiscordUser,
};
use ironclaw::json::Json;

fn user(id: &str, name: &str, global: Option<&str>) -> DiscordUser {
    DiscordUser {
        id: id.to_string(),
        username: name.to_string(),
        global_name: global.map(|s| s.to_string()),
    }
}

fn interaction(kind: u8) -> DiscordInteraction {
    DiscordInteraction {
        interaction_type: kind,
        id: "i1".to_string(),
        application_id: "app".to_string(),
        guild_id: None,
        channel_id: Some("c1".to_string()),
        member: None,
        user: Some(user("7", "dm", None)),
        data: None,
        message: None,
        token: "tok".to_string(),
    }
}

fn command(name: &str, options: Option<Vec<(&str, Json)>>) -> DiscordInteraction {
    let mut i = interaction(2);
    i.data = Some(DiscordCommandData {
        id: "d".to_string(),
        name: name.to_string(),
        options: options.map(|list| {
            list.into_iter()
                .map(|(name, value)| DiscordCommandOption {
                    name: name.to_string(),
                    value,
                })
                .collect()
        }),
    });
    i
}

fn body(bytes: &[u8]) -> &str {
    std::str::from_utf8(bytes).unwrap()
}

#[test]
fn bodies_must_be_text() {
    assert_eq!(body_text("{\"€\":1}".as_bytes()).unwrap(), "{\"€\":1}");
    let refused = body_text(b"\xff").unwrap_err();
    assert_eq!(refused.status, 400);
    assert_eq!(body(&refused.body), r#"{"error":"Invalid UTF-8 body"}"#);
    assert_eq!(refused.headers_json, r#"{"Content-Type":"application/json"}"#);
}

#[test]
fn unreadable_interactions_are_refused() {
    let outcome = on_http_request(None);
    assert_eq!(outcome.response.status, 400);
    assert_eq!(
        body(&outcome.response.body),
        r#"{"error":"Invalid interaction"}"#
    );
    assert!(outcome.emitted.is_none());
    assert!(outcome.on_failure.is_none());
}

#[test]
fn pings_are_answered() {
    let outcome = on_http_request(Some(&interaction(1)));
    assert_eq!(outcome.response.status, 200);
    assert_eq!(body(&outcome.response.body), r#"{"type":1}"#);
    assert_eq!(
        outcome.response.headers_json,
        r#"{"Content-Type":"application/json"}"#
    );
    assert!(outcome.emitted.is_none());
}

#[test]
fn unknown_interactions_are_acknowledged() {
    for kind in [0, 4, 5, 255] {
        let outcome = on_http_request(Some(&interaction(kind)));
        assert_eq!(outcome.response.status, 200);
        assert_eq!(body(&outcome.response.body), r#"{"type":6}"#);
        assert!(outcome.emitted.is_none());
        assert!(outcome.on_failure.is_none());
    }
}

#[test]
fn slash_commands_are_deferred_and_handed_on() {
    let outcome = on_http_request(Some(&command("ask", None)));
    assert_eq!(
        body(&outcome.response.body),
        r#"{"data":{"content":"🤔 Thinking..."},"type":5}"#
    );
    let emitted = outcome.emitted.unwrap();
    assert_eq!(emitted.content, "/ask");
    assert_eq!(emitted.user_id, "7");
    assert_eq!(emitted.user_name.as_deref(), Some("dm"));
    assert_eq!(emitted.metadata.channel_id, "c1");
    assert_eq!(emitted.metadata.interaction_id.as_deref(), Some("i1"));
    assert_eq!(emitted.metadata.token.as_deref(), Some("tok"));
    assert_eq!(emitted.metadata.application_id.as_deref(), Some("app"));
    assert!(emitted.metadata.source_message_id.is_none());
    assert!(outcome.on_failure.is_some());
}

#[test]
fn slash_command_options_are_written_as_json() {
    let with = |options| handle_slash_command(&command("ask", options)).content;
    assert_eq!(
        with(Some(vec![
            ("q", Json::text("why \"x\"?")),
            ("n", Json::integer(3)),
            ("b", Json::Bool(false)),
        ])),
        r#"/ask q: "why \"x\"?", n: 3, b: false"#
    );
    assert_eq!(with(Some(vec![("n", Json::Null)])), "/ask n: null");
    assert_eq!(with(Some(vec![])), "/ask ");
    assert_eq!(with(None), "/ask");
    assert_eq!(handle_slash_command(&interaction(2)).content, "/");
}

#[test]
fn member_comes_before_user() {
    let mut i = interaction(2);
    i.member = Some(DiscordMember {
        user: user("9", "member", Some("Member Name")),
        nick: None,
    });
    let emitted = handle_slash_command(&i);
    assert_eq!(emitted.user_id, "9");
    assert_eq!(emitted.user_name.as_deref(), Some("Member Name"));
    i.member = None;
    i.user = None;
    i.channel_id = None;
    let nobody = handle_slash_command(&i);
    assert_eq!(nobody.user_id, "");
    assert_eq!(nobody.user_name.as_deref(), Some(""));
    assert_eq!(nobody.metadata.channel_id, "");
}

#[test]
fn components_hand_on_their_message() {
    let mut i = interaction(3);
    let silent = on_http_request(Some(&i));
    assert!(silent.emitted.is_none());
    i.message = Some(DiscordMessage {
        id: "m".to_string(),
        content: "pick".to_string(),
        channel_id: "c2".to_string(),
        author: user("1", "a", None),
    });
    let outcome = on_http_request(Some(&i));
    assert_eq!(body(&outcome.response.body), r#"{"type":6}"#);
    assert!(outcome.on_failure.is_none());
    let emitted = outcome.emitted.unwrap();
    assert_eq!(emitted.content, "[Button clicked] pick");
    assert_eq!(emitted.metadata.channel_id, "c2");
    let same = handle_message_component(&i, i.message.as_ref().unwrap());
    assert_eq!(same.content, emitted.content);
}

#[test]
fn failure_notice_goes_to_the_webhook() {
    let request = metadata_failure_notice(&interaction(2));
    assert_eq!(request.method, "POST");
    assert_eq!(request.url, "https://discord.com/api/v10/webhooks/app/tok");
    assert_eq!(request.headers_json, r#"{"Content-Type":"application/json"}"#);
    assert_eq!(
        body(&request.body.unwrap()),
        r#"{"content":"❌ Internal Error: Failed to process command metadata.","flags":64}"#
    );
}

#[test]
fn answer_to_a_command_edits_the_deferred_message() {
    let emitted = on_http_request(Some(&command("ask", None))).emitted.unwrap();
    let request = answer_request(&emitted.metadata, "done", None).unwrap();
    assert_eq!(request.method, "PATCH");
    assert_eq!(
        request.url,
        "https://discord.com/api/v10/webhooks/app/tok/messages/@original"
    );
}

#[test]
fn default_configuration() {
    assert_eq!(default_poll_interval_ms(), 30_000);
    let config = config_or_default(None);
    assert!(!config.polling_enabled);
    assert_eq!(config.poll_interval_ms, 30_000);
    assert!(config.mention_channel_ids.is_empty());
    assert!(!is_polling(&config));
}

#[test]
fn starting_asks_for_the_webhook_and_for_polls() {
    let (stored, asked) = on_start(None);
    assert!(!stored.polling_enabled);
    assert_eq!(asked.display_name, "Discord");
    assert_eq!(asked.http_endpoints.len(), 1);
    assert_eq!(asked.http_endpoints[0].path, "/webhook/discord");
    assert_eq!(asked.http_endpoints[0].methods, vec!["POST"]);
    assert!(asked.http_endpoints[0].require_secret);
    assert!(asked.poll.is_none());

    let config = |interval| DiscordRuntimeConfig {
        polling_enabled: true,
        poll_interval_ms: interval,
        mention_channel_ids: vec!["c1".to_string()],
    };
    assert!(is_polling(&config(1)));
    for (given, expected) in [(0, 30_000), (30_000, 30_000), (45_000, 45_000)] {
        let poll = channel_config(&config(given)).poll.unwrap();
        assert_eq!(poll.interval_ms, expected);
        assert!(poll.enabled);
    }
    let (stored, _) = on_start(Some(config(5)));
    assert_eq!(stored.poll_interval_ms, 5);
    assert_eq!(stored.mention_channel_ids, vec!["c1"]);
}
