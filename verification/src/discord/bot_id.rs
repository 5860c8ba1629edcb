//! Finding out who the bot is, and what to ask Discord when polling.

use vstd::prelude::*;
use vstd::string::*;
use crate::discord::config::{is_polling, DiscordRuntimeConfig};
use crate::discord::reply::{auth_headers_tree, channel_messages, channel_url, discord_auth_headers_json};
use crate::discord::types::optional_text;
use crate::http::{is_success, success, HttpRequest, HttpResponse, RequestView};
use crate::json::{optional_tree, text_field, Json, JsonTree};
use crate::plain;
use crate::serde_bridge::{json_text, parsed_json};
use crate::text::{joined, trim_text, trimmed, views};

verus! {

/// A request that reads from Discord in the bot's name.
pub open spec fn read_request(url: Seq<char>) -> RequestView {
    RequestView {
        method: "GET"@,
        url,
        headers_json: json_text(auth_headers_tree(false)),
        body: None,
        timeout_ms: Some(10_000),
    }
}

/// The bot's ID as it was stored: blank is none.
pub open spec fn stored_id(stored: Option<Seq<char>>) -> Option<Seq<char>> {
    match stored {
        Some(text) => if trimmed(text).len() > 0 {
            Some(trimmed(text))
        } else {
            None
        },
        None => None,
    }
}

/// The ID in what Discord tells of a user.
pub open spec fn user_id_in(user: Option<JsonTree>) -> Option<Seq<char>> {
    match user {
        Some(tree) => text_field(tree, "id"@),
        None => None,
    }
}

fn get_request(url: String) -> (r: HttpRequest)
    ensures
        r@ == read_request(url@),
{
    HttpRequest {
        method: "GET".to_owned(),
        url,
        headers_json: discord_auth_headers_json(false),
        body: None,
        timeout_ms: Some(10_000),
    }
}

/// How the bot's ID is found.
#[derive(Debug)]
pub enum BotIdLookup {
    /// It is known.
    Known(String),
    /// Discord is asked for it.
    Ask(HttpRequest),
}

/// Finds the bot's ID: as it was stored, or by asking Discord who the bot is.
pub fn get_or_fetch_bot_id(stored: Option<&str>) -> (r: BotIdLookup)
    ensures
        match stored_id(
            match stored {
                Some(text) => Some(text@),
                None => None,
            },
        ) {
            Some(id) => r matches BotIdLookup::Known(known) && known@ == id,
            None => r matches BotIdLookup::Ask(request) && request@ == read_request(
                "https://discord.com/api/v10/users/@me"@,
            ),
        },
{
    match stored {
        Some(text) => {
            let id = trim_text(text);
            if !id.as_str().is_empty() {
                return BotIdLookup::Known(id);
            }
        },
        None => {},
    }
    BotIdLookup::Ask(get_request("https://discord.com/api/v10/users/@me".to_owned()))
}

/// The ID in what Discord tells of a user.
pub fn bot_id_in_user(user: Option<Json>) -> (r: Option<String>)
    ensures
        optional_text(r) == user_id_in(optional_tree(user)),
{
    match user {
        Some(json) => match json.get_text("id") {
            Some(id) => Some(id.to_owned()),
            None => None,
        },
        None => None,
    }
}

/// The bot's ID in Discord's answer, if there was an answer.
pub fn fetched_bot_id(response: Option<&HttpResponse>) -> (r: Option<String>)
    ensures
        optional_text(r) == match response {
            Some(answered) => if success(answered.status) {
                user_id_in(parsed_json(answered.body@))
            } else {
                None
            },
            None => None,
        },
{
    match response {
        Some(answered) => if is_success(answered.status) {
            bot_id_in_user(Json::parse(answered.body.as_slice()))
        } else {
            None
        },
        None => None,
    }
}

/// The name under which the cursor of a channel is stored.
pub open spec fn cursor_name(channel_id: Seq<char>) -> Seq<char> {
    "cursor_"@ + channel_id + ".txt"@
}

/// Where the cursor of a channel is stored.
pub fn cursor_path(channel_id: &str) -> (path: String)
    ensures
        path@ == "cursor_"@ + channel_id@ + ".txt"@,
        path@ == cursor_name(channel_id@),
{
    joined(joined("cursor_", channel_id).as_str(), ".txt")
}

/// The request that reads the last messages of a channel.
pub fn poll_request(channel_id: &str) -> (r: HttpRequest)
    ensures
        r@ == read_request(channel_url(channel_id@) + "?limit=25"@),
{
    let mut url = channel_messages(channel_id);
    url.append("?limit=25");
    get_request(url)
}

/// What polling asks Discord: nothing where it is not enabled, and otherwise for the last
/// messages of each channel, once and in the order of the list.
pub open spec fn polled_channels(config: DiscordRuntimeConfig) -> Seq<RequestView> {
    if config.polling_enabled {
        views(config.mention_channel_ids@).map_values(
            |id: Seq<char>| read_request(channel_url(id) + "?limit=25"@),
        )
    } else {
        Seq::empty()
    }
}

/// The views of a list of requests.
pub open spec fn request_views(requests: Seq<HttpRequest>) -> Seq<RequestView> {
    requests.map_values(|request: HttpRequest| request@)
}

/// The requests of one round of polling: one for each channel, in the order of the list.
/// There are none where there is nothing to poll.
pub fn poll_requests(config: &DiscordRuntimeConfig) -> (r: Vec<HttpRequest>)
    ensures
        request_views(r@) == polled_channels(*config),
        r@.len() == if config.polling_enabled {
            config.mention_channel_ids@.len()
        } else {
            0
        },
{
    let mut requests: Vec<HttpRequest> = Vec::new();
    if !is_polling(config) {
        assert(request_views(requests@) =~= polled_channels(*config));
        return requests;
    }
    let ghost all = polled_channels(*config);
    let mut i: usize = 0;
    assert(request_views(requests@) =~= all.take(0));
    while i < config.mention_channel_ids.len()
        invariant
            i <= config.mention_channel_ids@.len(),
            config.polling_enabled,
            all == polled_channels(*config),
            requests@.len() == i,
            request_views(requests@) == all.take(i as int),
        decreases config.mention_channel_ids@.len() - i,
    {
        let ghost before = requests@;
        let request = poll_request(config.mention_channel_ids[i].as_str());
        requests.push(request);
        assert(request_views(requests@) =~= request_views(before).push(request@));
        assert(all.take(i + 1) =~= all.take(i as int).push(all[i as int]));
        i = i + 1;
    }
    assert(all.take(i as int) =~= all);
    requests
}

/// Two channels never share a cursor.
pub proof fn cursors_are_separate(a: Seq<char>, b: Seq<char>)
    requires
        cursor_name(a) == cursor_name(b),
    ensures
        a == b,
{
    let x = "cursor_"@ + a + ".txt"@;
    let y = "cursor_"@ + b + ".txt"@;
    let from = "cursor_"@.len() as int;
    let to = x.len() - ".txt"@.len();
    assert(x.subrange(from, to) == a);
    assert(y.subrange(from, to) == b);
}

/// A stored ID is used without the blanks at its ends, where anything is left of it.
pub proof fn stored_ids_are_used_where_not_blank(stored: Seq<char>, core: Seq<char>)
    requires
        plain::is_core(stored, core),
    ensures
        stored_id(None) is None,
        core.len() > 0 ==> stored_id(Some(stored)) == Some(core),
        core.len() == 0 ==> stored_id(Some(stored)) is None,
{
    crate::text::trimming_leaves_the_core(stored);
}

/// The bot's ID is the string that Discord's answer holds under `id`.
pub proof fn the_bot_is_named_by_its_id(user: Option<JsonTree>)
    ensures
        user is None ==> user_id_in(user) is None,
        user matches Some(tree) ==> user_id_in(user) == plain::text_under(tree, "id"@),
{
}

/// What is read from Discord is read in the bot's name, without a body, and within ten
/// seconds.
pub proof fn reading_is_done_in_the_name_of_the_bot(url: Seq<char>)
    ensures
        ({
            let request = read_request(url);
            &&& request.method == "GET"@
            &&& request.url == url
            &&& request.headers_json == json_text(auth_headers_tree(false))
            &&& request.body is None
            &&& request.timeout_ms == Some(10_000u32)
        }),
{
}

/// Each channel of the list is asked for once, in the order of the list, where polling is
/// enabled; and none where it is not.
pub proof fn channels_are_asked_for_in_order(config: DiscordRuntimeConfig)
    ensures
        polled_channels(config).len() == if config.polling_enabled {
            config.mention_channel_ids@.len()
        } else {
            0
        },
        config.polling_enabled ==> forall|i: int|
            0 <= i < config.mention_channel_ids@.len() ==> polled_channels(config)[i].url
                == "https://discord.com/api/v10/channels/"@ + (
            #[trigger] config.mention_channel_ids@[i])@ + "/messages"@ + "?limit=25"@
                && polled_channels(config)[i] == read_request(polled_channels(config)[i].url),
{
}

/// The views of a list of requests are those of the requests, one for one.
pub proof fn requests_are_one_for_one(requests: Seq<HttpRequest>)
    ensures
        request_views(requests).len() == requests.len(),
        forall|i: int|
            0 <= i < requests.len() ==> request_views(requests)[i] == (#[trigger] requests[i])@,
{
}

} // verus!
