use ironclaw::discord::bot_id::{
    bot_id_in_user, cursor_path, fetched_bot_id, get_or_fetch_bot_id, poll_request, poll_requests, BotIdLookup,
};
use ironclaw::discord::config::DiscordRuntimeConfig;
use ironclaw::discord::mentions::{
    is_new_message, mention_content, message_mentions_bot, strip_bot_mention,
};
use ironclaw::discord::polling::{poll_channel_mentions, PollOutcome, PolledPage};
use ironclaw::discord::types::{
    display_name, DiscordChannelAuthor, DiscordChannelMessage, DiscordUser,
};
use ironclaw::http::HttpResponse;
use ironclaw::json::Json;

const BOT: &str = "42";

fn user(id: &str) -> DiscordUser {
    DiscordUser {
        id: id.to_string(),
        username: "u".to_string(),
        global_name: None,
    }
}

fn message(id: &str, author: &str, content: &str) -> DiscordChannelMessage {
    DiscordChannelMessage {
        id: id.to_string(),
        content: content.to_string(),
        channel_id: "c1".to_string(),
        author: DiscordChannelAuthor {
            id: author.to_string(),
            username: "name".to_string(),
            global_name: None,
            bot: false,
        },
        mentions: vec![],
        webhook_id: None,
    }
}

fn page(messages: Vec<DiscordChannelMessage>) -> Option<PolledPage> {
    Some(PolledPage {
        status: 200,
        messages: Some(messages),
    })
}

fn sources(outcome: &PollOutcome) -> Vec<String> {
    outcome
        .emitted
        .iter()
        .map(|m| m.metadata.source_message_id.clone().unwrap())
        .collect()
}

fn history() -> Vec<DiscordChannelMessage> {
    vec![
        message("11", "7", "<@42> third"),
        message("10", "7", "no mention"),
        message("9", "7", "<@!42> second"),
        message("8", "7", "<@42> first"),
    ]
}

#[test]
fn numbers_are_compared_as_numbers() {
    assert!(is_new_message(None, ""));
    assert!(is_new_message(Some("9"), "10"));
    assert!(!is_new_message(Some("10"), "9"));
    assert!(!is_new_message(Some("10"), "10"));
    assert!(!is_new_message(Some("7"), "007"));
    assert!(is_new_message(
        Some("989554992786579536"),
        "1001181816490827817"
    ));
}

#[test]
fn other_ids_are_compared_as_texts() {
    assert!(is_new_message(Some(""), "1"));
    assert!(is_new_message(Some("abc"), "abd"));
    assert!(!is_new_message(Some("abd"), "abc"));
    // One of the two is no number.
    assert!(!is_new_message(Some("9"), "10a"));
    assert!(is_new_message(Some("99999999999999999999"), "999999999999999999991"));
}

#[test]
fn mixed_ids_can_be_circular() {
    assert!(is_new_message(Some("9"), "10"));
    assert!(is_new_message(Some("10"), "1a"));
    assert!(is_new_message(Some("1a"), "9"));
}

#[test]
fn mentions_by_list_and_by_text() {
    let mut msg = message("1", "7", "hello");
    assert!(!message_mentions_bot(&msg, BOT));
    msg.mentions = vec![user("41"), user("42")];
    assert!(message_mentions_bot(&msg, BOT));
    assert!(message_mentions_bot(&message("1", "7", "a<@42>b"), BOT));
    assert!(message_mentions_bot(&message("1", "7", "a<@!42>b"), BOT));
    assert!(!message_mentions_bot(&message("1", "7", "<@421>"), BOT));
    assert!(!message_mentions_bot(&message("1", "7", "<@&42>"), BOT));
}

#[test]
fn mentions_are_taken_out() {
    assert_eq!(strip_bot_mention(" <@42> hi <@!42>there <@42>", BOT), "hi there");
    assert_eq!(strip_bot_mention("<@42>", BOT), "");
    assert_eq!(strip_bot_mention("  plain ", BOT), "plain");
    // Taking a mention out can bring another one about.
    assert_eq!(strip_bot_mention("<@<@42>42>", BOT), "<@42>");
    assert_eq!(mention_content("<@42>  ", BOT), "mention");
    assert_eq!(mention_content("<@42> x", BOT), "x");
}

#[test]
fn global_name_is_preferred() {
    let username = "user".to_string();
    assert_eq!(display_name(&Some("Global".to_string()), &username), "Global");
    assert_eq!(display_name(&Some(String::new()), &username), "user");
    assert_eq!(display_name(&None, &username), "user");
}

#[test]
fn first_poll_only_sets_the_cursor() {
    let outcome = poll_channel_mentions(None, &page(history()), BOT);
    assert!(outcome.emitted.is_empty());
    assert_eq!(outcome.cursor.as_deref(), Some("11"));
    let again = poll_channel_mentions(outcome.cursor.as_deref(), &page(history()), BOT);
    assert!(again.emitted.is_empty());
    let empty = poll_channel_mentions(None, &page(vec![]), BOT);
    assert!(empty.emitted.is_empty());
    assert!(empty.cursor.is_none());
}

#[test]
fn new_mentions_are_handed_on_oldest_first() {
    let outcome = poll_channel_mentions(Some(" 8\n"), &page(history()), BOT);
    assert_eq!(sources(&outcome), vec!["9", "11"]);
    assert_eq!(outcome.cursor.as_deref(), Some("11"));
    let first = &outcome.emitted[0];
    assert_eq!(first.user_id, "7");
    assert_eq!(first.user_name.as_deref(), Some("name"));
    assert_eq!(first.content, "second");
    assert!(first.thread_id.is_none());
    assert_eq!(first.metadata.channel_id, "c1");
    assert!(first.metadata.interaction_id.is_none());
    assert!(first.metadata.token.is_none());
    assert!(first.metadata.application_id.is_none());
    assert!(first.metadata.thread_id.is_none());
}

#[test]
fn nothing_is_handed_on_twice() {
    let first = poll_channel_mentions(Some("0"), &page(history()), BOT);
    assert_eq!(sources(&first), vec!["8", "9", "11"]);
    let second = poll_channel_mentions(first.cursor.as_deref(), &page(history()), BOT);
    assert!(second.emitted.is_empty());
    assert_eq!(second.cursor, first.cursor);
}

#[test]
fn an_empty_page_keeps_the_cursor() {
    let outcome = poll_channel_mentions(Some(" 5 "), &page(vec![]), BOT);
    assert!(outcome.emitted.is_empty());
    assert_eq!(outcome.cursor.as_deref(), Some("5"));
}

#[test]
fn messages_of_bots_and_webhooks_move_the_cursor_only() {
    let mut bot = message("5", "7", "<@42>");
    bot.author.bot = true;
    let own = message("4", "42", "<@42>");
    let mut webhook = message("3", "7", "<@42>");
    webhook.webhook_id = Some("w".to_string());
    let outcome = poll_channel_mentions(Some("1"), &page(vec![bot, own, webhook]), BOT);
    assert!(outcome.emitted.is_empty());
    assert_eq!(outcome.cursor.as_deref(), Some("5"));
}

#[test]
fn failed_polls_do_nothing() {
    let none = poll_channel_mentions(Some("1"), &None, BOT);
    assert!(none.emitted.is_empty() && none.cursor.is_none());
    let unread = Some(PolledPage {
        status: 200,
        messages: None,
    });
    let outcome = poll_channel_mentions(Some("1"), &unread, BOT);
    assert!(outcome.emitted.is_empty() && outcome.cursor.is_none());
    for status in [199, 300, 404, 500] {
        let refused = Some(PolledPage {
            status,
            messages: Some(history()),
        });
        let outcome = poll_channel_mentions(Some("1"), &refused, BOT);
        assert!(outcome.emitted.is_empty() && outcome.cursor.is_none());
    }
}

#[test]
fn stored_bot_id_is_used() {
    assert!(matches!(
        get_or_fetch_bot_id(Some(" 42\n")),
        BotIdLookup::Known(id) if id == "42"
    ));
}

#[test]
fn unknown_bot_id_is_asked_for() {
    for stored in [None, Some(""), Some(" \n")] {
        match get_or_fetch_bot_id(stored) {
            BotIdLookup::Ask(request) => {
                assert_eq!(request.method, "GET");
                assert_eq!(request.url, "https://discord.com/api/v10/users/@me");
                assert_eq!(
                    request.headers_json,
                    r#"{"Authorization":"Bot {DISCORD_BOT_TOKEN}"}"#
                );
                assert!(request.body.is_none());
                assert_eq!(request.timeout_ms, Some(10_000));
            }
            BotIdLookup::Known(_) => panic!("nothing is stored"),
        }
    }
}

#[test]
fn bot_id_is_read_from_the_answer() {
    let response = |status: u16, body: &str| HttpResponse {
        status,
        body: body.as_bytes().to_vec(),
    };
    let good = response(200, r#"{"id":"42","username":"b"}"#);
    assert_eq!(fetched_bot_id(Some(&good)).as_deref(), Some("42"));
    assert_eq!(fetched_bot_id(Some(&response(401, r#"{"id":"42"}"#))), None);
    assert_eq!(fetched_bot_id(Some(&response(200, r#"{"id":42}"#))), None);
    assert_eq!(fetched_bot_id(Some(&response(200, "[]"))), None);
    assert_eq!(fetched_bot_id(Some(&response(200, "{"))), None);
    assert_eq!(fetched_bot_id(None), None);
    assert_eq!(bot_id_in_user(None), None);
    assert_eq!(bot_id_in_user(Some(Json::Null)), None);
}

#[test]
fn polling_a_channel() {
    assert_eq!(cursor_path("c1"), "cursor_c1.txt");
    let request = poll_request("c1");
    assert_eq!(request.method, "GET");
    assert_eq!(
        request.url,
        "https://discord.com/api/v10/channels/c1/messages?limit=25"
    );
    assert_eq!(request.timeout_ms, Some(10_000));
}

#[test]
fn later_polls_pass_over_what_was_found() {
    let first = poll_channel_mentions(None, &page(vec![message("11", "7", "<@42> a")]), BOT);
    assert!(first.emitted.is_empty());
    let second = poll_channel_mentions(
        first.cursor.as_deref(),
        &page(vec![message("12", "7", "<@42> b"), message("11", "7", "<@42> a")]),
        BOT,
    );
    assert_eq!(sources(&second), vec!["12"]);
    let third = poll_channel_mentions(
        second.cursor.as_deref(),
        &page(vec![
            message("100", "7", "<@42> c"),
            message("12", "7", "<@42> b"),
            message("11", "7", "<@42> a"),
        ]),
        BOT,
    );
    assert_eq!(sources(&third), vec!["100"]);
    let fourth = poll_channel_mentions(
        third.cursor.as_deref(),
        &page(vec![message("12", "7", "<@42> b"), message("11", "7", "<@42> a")]),
        BOT,
    );
    assert!(fourth.emitted.is_empty());
    assert_eq!(fourth.cursor.as_deref(), Some("100"));
}

#[test]
fn a_leading_mention_makes_no_difference() {
    assert_eq!(strip_bot_mention("<@42> a <@!42> b", BOT), strip_bot_mention(" a <@!42> b", BOT));
    assert_eq!(strip_bot_mention(" a <@!42> b", BOT), "a  b");
}

#[test]
fn every_channel_is_polled_once_in_order() {
    let config = |polling_enabled: bool, ids: &[&str]| DiscordRuntimeConfig {
        polling_enabled,
        poll_interval_ms: 30_000,
        mention_channel_ids: ids.iter().map(|id| id.to_string()).collect(),
    };
    let urls: Vec<String> = poll_requests(&config(true, &["c2", "c1"]))
        .into_iter()
        .map(|request| request.url)
        .collect();
    assert_eq!(
        urls,
        vec![
            "https://discord.com/api/v10/channels/c2/messages?limit=25",
            "https://discord.com/api/v10/channels/c1/messages?limit=25",
        ]
    );
    assert!(poll_requests(&config(true, &[])).is_empty());
    assert!(poll_requests(&config(false, &["c1"])).is_empty());
}
