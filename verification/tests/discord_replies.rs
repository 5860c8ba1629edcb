use ironclaw::discord::reply::{
    answer_request, delivery_result, discord_auth_headers_json, map_discord_response, on_respond,
};
use ironclaw::discord::types::DiscordMessageMetadata;
use ironclaw::http::HttpResponse;
use ironclaw::json::Json;

fn metadata(
    application_id: Option<&str>,
    token: Option<&str>,
    source: Option<&str>,
) -> DiscordMessageMetadata {
    DiscordMessageMetadata {
        channel_id: "c1".to_string(),
        interaction_id: None,
        token: token.map(|s| s.to_string()),
        application_id: application_id.map(|s| s.to_string()),
        source_message_id: source.map(|s| s.to_string()),
        thread_id: None,
    }
}

fn body(bytes: Option<Vec<u8>>) -> String {
    String::from_utf8(bytes.unwrap()).unwrap()
}

#[test]
fn authorization_headers() {
    assert_eq!(
        discord_auth_headers_json(true),
        r#"{"Authorization":"Bot {DISCORD_BOT_TOKEN}","Content-Type":"application/json"}"#
    );
    assert_eq!(
        discord_auth_headers_json(false),
        r#"{"Authorization":"Bot {DISCORD_BOT_TOKEN}"}"#
    );
}

#[test]
fn interactions_are_patched() {
    let request = answer_request(&metadata(Some("a"), Some("t"), Some("m")), "hi", None).unwrap();
    assert_eq!(request.method, "PATCH");
    assert_eq!(
        request.url,
        "https://discord.com/api/v10/webhooks/a/t/messages/@original"
    );
    assert_eq!(request.headers_json, r#"{"Content-Type":"application/json"}"#);
    assert_eq!(body(request.body), r#"{"content":"hi"}"#);
    assert!(request.timeout_ms.is_none());
}

#[test]
fn mentions_are_replied_to() {
    for (application_id, token) in [(None, None), (Some("a"), None), (None, Some("t"))] {
        let request =
            answer_request(&metadata(application_id, token, Some("m\"1")), "hi", None).unwrap();
        assert_eq!(request.method, "POST");
        assert_eq!(
            request.url,
            "https://discord.com/api/v10/channels/c1/messages"
        );
        assert_eq!(request.headers_json, discord_auth_headers_json(true));
        assert_eq!(
            body(request.body),
            r#"{"allowed_mentions":{"replied_user":true},"content":"hi","message_reference":{"message_id":"m\"1"}}"#
        );
    }
}

#[test]
fn other_metadata_is_refused() {
    for (application_id, token) in [(None, None), (Some("a"), None), (None, Some("t"))] {
        assert_eq!(
            answer_request(&metadata(application_id, token, None), "hi", None).unwrap_err(),
            "Unsupported Discord response metadata"
        );
    }
}

#[test]
fn embeds_are_taken_from_the_metadata() {
    let meta = || Ok(metadata(Some("a"), Some("t"), None));
    let request = on_respond("hi", r#"{"embeds":[{"title":"x"}],"channel_id":"c"}"#, meta()).unwrap();
    assert_eq!(
        body(request.body),
        r#"{"content":"hi","embeds":[{"title":"x"}]}"#
    );
    let null = on_respond("hi", r#"{"embeds":null}"#, meta()).unwrap();
    assert_eq!(body(null.body), r#"{"content":"hi","embeds":null}"#);
    let none = on_respond("hi", "{}", meta()).unwrap();
    assert_eq!(body(none.body), r#"{"content":"hi"}"#);
    let unread = on_respond("hi", "not json", meta()).unwrap();
    assert_eq!(body(unread.body), r#"{"content":"hi"}"#);
    let given = answer_request(
        &metadata(None, None, Some("m")),
        "hi",
        Some(Json::Array(vec![])),
    )
    .unwrap();
    assert_eq!(
        body(given.body),
        r#"{"allowed_mentions":{"replied_user":true},"content":"hi","embeds":[],"message_reference":{"message_id":"m"}}"#
    );
}

#[test]
fn unreadable_metadata_is_reported() {
    assert_eq!(
        on_respond("hi", "", Err("EOF".to_string())).unwrap_err(),
        "Failed to parse metadata: EOF"
    );
}

#[test]
fn long_answers_are_truncated() {
    let request =
        answer_request(&metadata(Some("a"), Some("t"), None), &"a".repeat(3000), None).unwrap();
    assert_eq!(
        body(request.body),
        format!("{{\"content\":\"{}\\n... (truncated)\"}}", "a".repeat(1990))
    );
}

#[test]
fn deliveries() {
    let response = |status: u16, body: &[u8]| {
        Ok(HttpResponse {
            status,
            body: body.to_vec(),
        })
    };
    assert_eq!(map_discord_response(response(200, b"")), Ok(()));
    assert_eq!(map_discord_response(response(299, b"x")), Ok(()));
    assert_eq!(
        map_discord_response(response(199, b"early")),
        Err("Discord API error: 199 - early".to_string())
    );
    assert_eq!(
        map_discord_response(response(404, "nö".as_bytes())),
        Err("Discord API error: 404 - nö".to_string())
    );
    assert_eq!(
        map_discord_response(response(500, b"a\xffb")),
        Err("Discord API error: 500 - a\u{fffd}b".to_string())
    );
    assert_eq!(
        map_discord_response(Err("timeout".to_string())),
        Err("HTTP request failed: timeout".to_string())
    );
    assert_eq!(
        delivery_result(0, "z"),
        Err("Discord API error: 0 - z".to_string())
    );
}
