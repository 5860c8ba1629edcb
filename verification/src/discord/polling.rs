//! Polling channels for messages that mention the bot.

use vstd::prelude::*;
use vstd::string::*;
use crate::discord::mentions::{
    is_new_message, mention_content, mention_text, mentions_user, message_mentions_bot,
    messages_mention_by_list_or_text, newer, newer_is_asymmetric,
};
use crate::discord::types::{
    display_name, optional_text, shown_name, DiscordChannelMessage, DiscordMessageMetadata,
    EmittedMessage, EmittedView, MetadataView,
};
use crate::http::{is_success, success};
use crate::plain;
use crate::text::{same_text, trim_text, trimmed};

verus! {

/// The message was not written by the bot, by another bot or by a webhook.
pub open spec fn from_a_person(msg: DiscordChannelMessage, bot_id: Seq<char>) -> bool {
    &&& msg.webhook_id is None
    &&& !msg.author.bot
    &&& msg.author.id@ != bot_id
}

/// The message is handed on: newer than the cursor, written by a person, and it
/// mentions the bot.
pub open spec fn wanted(
    msg: DiscordChannelMessage,
    last_seen: Seq<char>,
    bot_id: Seq<char>,
) -> bool {
    &&& newer(Some(last_seen), msg.id@)
    &&& from_a_person(msg, bot_id)
    &&& mentions_user(msg, bot_id)
}

/// What is handed on for a message that mentions the bot.
pub open spec fn mention_event(msg: DiscordChannelMessage, bot_id: Seq<char>) -> EmittedView {
    EmittedView {
        user_id: msg.author.id@,
        user_name: Some(shown_name(optional_text(msg.author.global_name), msg.author.username@)),
        content: mention_text(msg.content@, bot_id),
        thread_id: None,
        metadata: MetadataView {
            channel_id: msg.channel_id@,
            interaction_id: None,
            token: None,
            application_id: None,
            source_message_id: Some(msg.id@),
            thread_id: None,
        },
    }
}

/// What is handed on for the messages of a channel, which Discord lists newest first:
/// the wanted ones, oldest first.
pub open spec fn mention_events(
    messages: Seq<DiscordChannelMessage>,
    last_seen: Seq<char>,
    bot_id: Seq<char>,
) -> Seq<EmittedView>
    decreases messages.len(),
{
    if messages.len() == 0 {
        Seq::empty()
    } else {
        let older = mention_events(messages.drop_first(), last_seen, bot_id);
        if wanted(messages.first(), last_seen, bot_id) {
            older.push(mention_event(messages.first(), bot_id))
        } else {
            older
        }
    }
}

/// The cursor after the messages of a channel, listed newest first.
pub open spec fn advanced_cursor(
    messages: Seq<DiscordChannelMessage>,
    last_seen: Seq<char>,
) -> Seq<char>
    decreases messages.len(),
{
    if messages.len() == 0 {
        last_seen
    } else {
        let cursor = advanced_cursor(messages.drop_first(), last_seen);
        let id = messages.first().id@;
        if newer(Some(last_seen), id) && newer(Some(cursor), id) {
            id
        } else {
            cursor
        }
    }
}

/// What Discord answered to the request for the messages of a channel.
#[derive(Debug)]
pub struct PolledPage {
    pub status: u16,
    /// The messages, newest first, if the body could be read as messages.
    pub messages: Option<Vec<DiscordChannelMessage>>,
}

/// What a poll of one channel comes to.
#[derive(Debug)]
pub struct PollOutcome {
    /// The messages to hand on, in this order.
    pub emitted: Vec<EmittedMessage>,
    /// The cursor to store afterwards, if any.
    pub cursor: Option<String>,
}

/// The messages that were read, if there was an answer and it tells success.
pub open spec fn page_messages(page: Option<PolledPage>) -> Option<Seq<DiscordChannelMessage>> {
    match page {
        Some(answered) => match answered.messages {
            Some(messages) => if success(answered.status) {
                Some(messages@)
            } else {
                None
            },
            None => None,
        },
        None => None,
    }
}

/// The views of a list of messages.
pub open spec fn emitted_views(list: Seq<EmittedMessage>) -> Seq<EmittedView> {
    list.map_values(|m: EmittedMessage| m@)
}

/// What a poll hands on: nothing where the channel has no cursor yet.
pub open spec fn polled_events(
    stored_cursor: Option<Seq<char>>,
    messages: Seq<DiscordChannelMessage>,
    bot_id: Seq<char>,
) -> Seq<EmittedView> {
    match stored_cursor {
        None => Seq::empty(),
        Some(cursor) => mention_events(messages, trimmed(cursor), bot_id),
    }
}

/// The cursor that a poll stores: the newest message where the channel has none yet.
pub open spec fn polled_cursor(
    stored_cursor: Option<Seq<char>>,
    messages: Seq<DiscordChannelMessage>,
) -> Option<Seq<char>> {
    match stored_cursor {
        None => if messages.len() > 0 {
            Some(messages.first().id@)
        } else {
            None
        },
        Some(cursor) => Some(advanced_cursor(messages, trimmed(cursor))),
    }
}

/// What is handed on for a message that mentions the bot.
fn mention_message(msg: &DiscordChannelMessage, bot_id: &str) -> (r: EmittedMessage)
    ensures
        r@ == mention_event(*msg, bot_id@),
{
    EmittedMessage {
        user_id: msg.author.id.clone(),
        user_name: Some(display_name(&msg.author.global_name, &msg.author.username)),
        content: mention_content(msg.content.as_str(), bot_id),
        thread_id: None,
        metadata: DiscordMessageMetadata {
            channel_id: msg.channel_id.clone(),
            interaction_id: None,
            token: None,
            application_id: None,
            source_message_id: Some(msg.id.clone()),
            thread_id: None,
        },
    }
}

/// Goes through the messages of a channel, which Discord lists newest first.
fn go_through(
    stored_cursor: Option<&str>,
    messages: &Vec<DiscordChannelMessage>,
    bot_id: &str,
) -> (r: PollOutcome)
    ensures
        ({
            let stored = match stored_cursor {
                Some(s) => Some(s@),
                None => None,
            };
            &&& emitted_views(r.emitted@) == polled_events(stored, messages@, bot_id@)
            &&& optional_text(r.cursor) == polled_cursor(stored, messages@)
        }),
{
    let mut emitted: Vec<EmittedMessage> = Vec::new();
    assert(emitted_views(emitted@) == Seq::<EmittedView>::empty());
    let last_seen = match stored_cursor {
        Some(stored) => trim_text(stored),
        None => {
            let cursor = if messages.len() > 0 {
                Some(messages[0].id.clone())
            } else {
                None
            };
            return PollOutcome { emitted, cursor };
        },
    };
    let mut cursor = last_seen.clone();
    let mut i: usize = messages.len();
    assert(messages@.skip(i as int) == Seq::<DiscordChannelMessage>::empty());
    while i > 0
        invariant
            i <= messages@.len(),
            emitted_views(emitted@) == mention_events(
                messages@.skip(i as int),
                last_seen@,
                bot_id@,
            ),
            cursor@ == advanced_cursor(messages@.skip(i as int), last_seen@),
        decreases i,
    {
        i = i - 1;
        let msg = &messages[i];
        assert(messages@.skip(i as int).drop_first() == messages@.skip(i + 1));
        let ghost before = emitted@;
        if is_new_message(Some(last_seen.as_str()), msg.id.as_str()) {
            if is_new_message(Some(cursor.as_str()), msg.id.as_str()) {
                cursor = msg.id.clone();
            }
            if msg.webhook_id.is_none() && !msg.author.bot && !same_text(
                msg.author.id.as_str(),
                bot_id,
            ) && message_mentions_bot(msg, bot_id) {
                emitted.push(mention_message(msg, bot_id));
                assert(emitted_views(emitted@) =~= emitted_views(before).push(
                    mention_event(*msg, bot_id@),
                ));
            }
        }
    }
    assert(messages@.skip(0) == messages@);
    PollOutcome { emitted, cursor: Some(cursor) }
}

/// Handles Discord's answer to the request for the messages of a channel.
///
/// A channel without a cursor gets one, and its history is passed over. Otherwise the
/// messages after the cursor that mention the bot are handed on, oldest first, and the
/// cursor moves to the newest of them all. Without an answer, or with one that tells no
/// success or cannot be read, nothing is done.
pub fn poll_channel_mentions(
    stored_cursor: Option<&str>,
    page: &Option<PolledPage>,
    bot_id: &str,
) -> (r: PollOutcome)
    ensures
        ({
            let stored = match stored_cursor {
                Some(s) => Some(s@),
                None => None,
            };
            match page_messages(*page) {
                Some(messages) => {
                    &&& emitted_views(r.emitted@) == polled_events(stored, messages, bot_id@)
                    &&& optional_text(r.cursor) == polled_cursor(stored, messages)
                },
                None => r.emitted@.len() == 0 && r.cursor is None,
            }
        }),
{
    match page {
        Some(answered) => match &answered.messages {
            Some(messages) => if is_success(answered.status) {
                return go_through(stored_cursor, messages, bot_id);
            },
            None => {},
        },
        None => {},
    }
    PollOutcome { emitted: Vec::new(), cursor: None }
}

/// The first poll of a channel hands nothing on.
pub proof fn first_poll_is_silent(messages: Seq<DiscordChannelMessage>, bot_id: Seq<char>)
    ensures
        polled_events(None, messages, bot_id) == Seq::<EmittedView>::empty(),
{
}

/// Exactly the wanted messages are handed on: whatever is handed on comes from a
/// message that is wanted, and no wanted message is passed over.
pub proof fn exactly_the_wanted_are_handed_on(
    messages: Seq<DiscordChannelMessage>,
    last_seen: Seq<char>,
    bot_id: Seq<char>,
)
    ensures
        forall|e: EmittedView| #[trigger]
            mention_events(messages, last_seen, bot_id).contains(e) <==> exists|i: int|
                0 <= i < messages.len() && wanted(#[trigger] messages[i], last_seen, bot_id) && e
                    == mention_event(messages[i], bot_id),
    decreases messages.len(),
{
    let all = mention_events(messages, last_seen, bot_id);
    if messages.len() > 0 {
        let rest = messages.drop_first();
        let older = mention_events(rest, last_seen, bot_id);
        exactly_the_wanted_are_handed_on(rest, last_seen, bot_id);
        assert forall|e: EmittedView| #[trigger] all.contains(e) <==> exists|i: int|
            0 <= i < messages.len() && wanted(#[trigger] messages[i], last_seen, bot_id) && e
                == mention_event(messages[i], bot_id) by {
            if all.contains(e) {
                let k = choose|k: int| 0 <= k < all.len() && all[k] == e;
                if k < older.len() {
                    assert(older[k] == e);
                    assert(older.contains(e));
                    let i = choose|i: int|
                        0 <= i < rest.len() && wanted(#[trigger] rest[i], last_seen, bot_id) && e
                            == mention_event(rest[i], bot_id);
                    assert(messages[i + 1] == rest[i]);
                } else {
                    assert(messages[0] == messages.first());
                }
            }
            if exists|i: int|
                0 <= i < messages.len() && wanted(#[trigger] messages[i], last_seen, bot_id) && e
                    == mention_event(messages[i], bot_id) {
                let i = choose|i: int|
                    0 <= i < messages.len() && wanted(#[trigger] messages[i], last_seen, bot_id)
                        && e == mention_event(messages[i], bot_id);
                if i == 0 {
                    assert(all.last() == e);
                } else {
                    assert(rest[i - 1] == messages[i]);
                    assert(older.contains(e));
                    let k = choose|k: int| 0 <= k < older.len() && older[k] == e;
                    assert(all[k] == e);
                }
            }
        }
    }
}

/// Older messages are handed on before newer ones: what stands further back in the list
/// comes first.
pub proof fn older_messages_come_first(
    newer_part: Seq<DiscordChannelMessage>,
    older_part: Seq<DiscordChannelMessage>,
    last_seen: Seq<char>,
    bot_id: Seq<char>,
)
    ensures
        mention_events(newer_part + older_part, last_seen, bot_id) == mention_events(
            older_part,
            last_seen,
            bot_id,
        ) + mention_events(newer_part, last_seen, bot_id),
    decreases newer_part.len(),
{
    let all = newer_part + older_part;
    if newer_part.len() == 0 {
        assert(all == older_part);
    } else {
        older_messages_come_first(newer_part.drop_first(), older_part, last_seen, bot_id);
        assert(all.drop_first() == newer_part.drop_first() + older_part);
        assert(all.first() == newer_part.first());
    }
}

/// The cursor never moves back: it stays, or it moves to a message of the poll that is
/// newer than where it was.
pub proof fn cursor_never_moves_back(messages: Seq<DiscordChannelMessage>, last_seen: Seq<char>)
    ensures
        ({
            let cursor = advanced_cursor(messages, last_seen);
            ||| cursor == last_seen
            ||| newer(Some(last_seen), cursor) && exists|i: int|
                0 <= i < messages.len() && (#[trigger] messages[i]).id@ == cursor
        }),
    decreases messages.len(),
{
    if messages.len() > 0 {
        let rest = messages.drop_first();
        cursor_never_moves_back(rest, last_seen);
        let cursor = advanced_cursor(rest, last_seen);
        if cursor != last_seen {
            let i = choose|i: int| 0 <= i < rest.len() && (#[trigger] rest[i]).id@ == cursor;
            assert(messages[i + 1] == rest[i]);
        }
        assert(messages[0] == messages.first());
    }
}

/// Being newer carries over among the cursor and the messages of a poll.
pub open spec fn consistent_order(
    messages: Seq<DiscordChannelMessage>,
    last_seen: Seq<char>,
) -> bool {
    forall|a: Seq<char>, b: Seq<char>, c: Seq<char>|
        is_poll_id(messages, last_seen, a) && is_poll_id(messages, last_seen, b) && is_poll_id(
            messages,
            last_seen,
            c,
        ) && #[trigger] newer(Some(a), b) && #[trigger] newer(Some(b), c) ==> newer(Some(a), c)
}

/// `id` is the cursor or the ID of a message.
pub open spec fn is_poll_id(
    messages: Seq<DiscordChannelMessage>,
    last_seen: Seq<char>,
    id: Seq<char>,
) -> bool {
    id == last_seen || exists|i: int| 0 <= i < messages.len() && (#[trigger] messages[i]).id@ == id
}

/// Where every ID is a number, as Discord's are, their order is consistent.
pub proof fn numbers_are_consistent(messages: Seq<DiscordChannelMessage>, last_seen: Seq<char>)
    requires
        crate::digits::unsigned_value(last_seen) is Some,
        forall|i: int|
            0 <= i < messages.len() ==> crate::digits::unsigned_value(
                (#[trigger] messages[i]).id@,
            ) is Some,
    ensures
        consistent_order(messages, last_seen),
{
}

/// After a poll no message of it is newer than the stored cursor.
pub proof fn nothing_is_newer_than_the_cursor(
    messages: Seq<DiscordChannelMessage>,
    last_seen: Seq<char>,
)
    requires
        consistent_order(messages, last_seen),
    ensures
        forall|i: int|
            0 <= i < messages.len() ==> !newer(
                Some(advanced_cursor(messages, last_seen)),
                (#[trigger] messages[i]).id@,
            ),
    decreases messages.len(),
{
    if messages.len() > 0 {
        let rest = messages.drop_first();
        assert forall|id: Seq<char>| is_poll_id(rest, last_seen, id) implies #[trigger] is_poll_id(
            messages,
            last_seen,
            id,
        ) by {
            if id != last_seen {
                let i = choose|i: int| 0 <= i < rest.len() && (#[trigger] rest[i]).id@ == id;
                assert(messages[i + 1] == rest[i]);
            }
        }
        nothing_is_newer_than_the_cursor(rest, last_seen);
        cursor_never_moves_back(rest, last_seen);
        cursor_never_moves_back(messages, last_seen);
        let before = advanced_cursor(rest, last_seen);
        let cursor = advanced_cursor(messages, last_seen);
        assert(messages[0] == messages.first());
        assert(is_poll_id(rest, last_seen, before));
        assert forall|i: int| 0 <= i < messages.len() implies !newer(
            Some(cursor),
            (#[trigger] messages[i]).id@,
        ) by {
            let id = messages[i].id@;
            assert(is_poll_id(messages, last_seen, id));
            assert(is_poll_id(messages, last_seen, cursor));
            assert(is_poll_id(messages, last_seen, before));
            newer_is_asymmetric(id, id);
            if i > 0 {
                assert(rest[i - 1] == messages[i]);
                assert(!newer(Some(before), id));
            }
        }
    }
}

/// A second poll that finds the same messages hands nothing on and leaves the cursor.
pub proof fn second_poll_is_silent(
    stored_cursor: Seq<char>,
    messages: Seq<DiscordChannelMessage>,
    bot_id: Seq<char>,
)
    requires
        consistent_order(messages, trimmed(stored_cursor)),
        forall|i: int|
            0 <= i < messages.len() ==> trimmed((#[trigger] messages[i]).id@) == messages[i].id@,
    ensures
        ({
            let stored = polled_cursor(Some(stored_cursor), messages);
            &&& polled_events(stored, messages, bot_id) == Seq::<EmittedView>::empty()
            &&& polled_cursor(stored, messages) == stored
        }),
{
    let last_seen = trimmed(stored_cursor);
    let cursor = advanced_cursor(messages, last_seen);
    nothing_is_newer_than_the_cursor(messages, last_seen);
    lemma_nothing_newer(messages, cursor, bot_id);
    cursor_never_moves_back(messages, last_seen);
    crate::text::lemma_trimmed_twice(stored_cursor);
}

/// The cursor that is stored after these polls, each given by the messages it found,
/// where `stored` was stored before them. A poll that fails leaves the cursor, and is
/// left out.
pub open spec fn cursor_after(
    pages: Seq<Seq<DiscordChannelMessage>>,
    stored: Seq<char>,
) -> Seq<char>
    decreases pages.len(),
{
    if pages.len() == 0 {
        stored
    } else {
        polled_cursor(Some(cursor_after(pages.drop_last(), stored)), pages.last())->0
    }
}

/// `id` is the first cursor or the ID of a message of the polls.
pub open spec fn is_known_id(
    pages: Seq<Seq<DiscordChannelMessage>>,
    stored: Seq<char>,
    id: Seq<char>,
) -> bool {
    id == trimmed(stored) || exists|p: int, i: int|
        0 <= p < pages.len() && 0 <= i < pages[p].len() && (#[trigger] pages[p][i]).id@ == id
}

/// Among the first cursor and the messages of the polls being newer carries over, and no
/// ID has white space at its ends.
pub open spec fn consistent_history(
    pages: Seq<Seq<DiscordChannelMessage>>,
    stored: Seq<char>,
) -> bool {
    &&& forall|a: Seq<char>, b: Seq<char>, c: Seq<char>|
        is_known_id(pages, stored, a) && is_known_id(pages, stored, b) && is_known_id(
            pages,
            stored,
            c,
        ) && #[trigger] newer(Some(a), b) && #[trigger] newer(Some(b), c) ==> newer(Some(a), c)
    &&& forall|id: Seq<char>| #[trigger] is_known_id(pages, stored, id) ==> trimmed(id) == id
}

/// Where every ID is a number, as Discord's are, the history is consistent.
pub proof fn numbers_make_a_consistent_history(
    pages: Seq<Seq<DiscordChannelMessage>>,
    stored: Seq<char>,
)
    requires
        crate::digits::unsigned_value(trimmed(stored)) is Some,
        forall|p: int, i: int|
            0 <= p < pages.len() && 0 <= i < pages[p].len() ==> crate::digits::unsigned_value(
                (#[trigger] pages[p][i]).id@,
            ) is Some,
    ensures
        consistent_history(pages, stored),
{
    assert forall|id: Seq<char>| #[trigger] is_known_id(pages, stored, id) implies trimmed(id)
        == id by {
        crate::digits::lemma_numbers_are_trimmed(id);
    }
}

/// What holds after these polls: the cursor is the first one or a message of them, and no
/// message of them is newer.
proof fn lemma_history(pages: Seq<Seq<DiscordChannelMessage>>, stored: Seq<char>)
    requires
        consistent_history(pages, stored),
    ensures
        is_known_id(pages, stored, trimmed(cursor_after(pages, stored))),
        forall|p: int, i: int|
            0 <= p < pages.len() && 0 <= i < pages[p].len() ==> !newer(
                Some(trimmed(cursor_after(pages, stored))),
                (#[trigger] pages[p][i]).id@,
            ),
    decreases pages.len(),
{
    if pages.len() > 0 {
        let front = pages.drop_last();
        let page = pages.last();
        assert forall|id: Seq<char>| #[trigger] is_known_id(front, stored, id) implies is_known_id(
            pages,
            stored,
            id,
        ) by {
            if id != trimmed(stored) {
                let (p, i) = choose|p: int, i: int|
                    0 <= p < front.len() && 0 <= i < front[p].len() && (#[trigger] front[p][i]).id@
                        == id;
                assert(pages[p][i] == front[p][i]);
            }
        }
        lemma_history(front, stored);
        let before = trimmed(cursor_after(front, stored));
        assert forall|id: Seq<char>| is_poll_id(page, before, id) implies is_known_id(
            pages,
            stored,
            id,
        ) by {
            if id != before {
                let i = choose|i: int| 0 <= i < page.len() && (#[trigger] page[i]).id@ == id;
                assert(pages[pages.len() - 1][i] == page[i]);
            }
        }
        nothing_is_newer_than_the_cursor(page, before);
        cursor_never_moves_back(page, before);
        let cursor = advanced_cursor(page, before);
        assert(is_poll_id(page, before, cursor));
        assert(trimmed(cursor) == cursor);
        assert forall|p: int, i: int| 0 <= p < pages.len() && 0 <= i < pages[p].len() implies !newer(
            Some(cursor),
            (#[trigger] pages[p][i]).id@,
        ) by {
            let id = pages[p][i].id@;
            assert(is_known_id(pages, stored, id));
            if p < front.len() {
                assert(front[p][i] == pages[p][i]);
                assert(!newer(Some(before), id));
                assert(is_known_id(pages, stored, before));
                assert(is_known_id(pages, stored, cursor));
            } else {
                assert(page[i] == pages[p][i]);
            }
        }
    }
}

/// A message that a poll has found is not handed on by any later poll.
pub proof fn no_message_is_handed_on_twice(
    pages: Seq<Seq<DiscordChannelMessage>>,
    stored: Seq<char>,
    bot_id: Seq<char>,
    p: int,
    i: int,
)
    requires
        consistent_history(pages, stored),
        0 <= p < pages.len(),
        0 <= i < pages[p].len(),
    ensures
        !wanted(pages[p][i], trimmed(cursor_after(pages, stored)), bot_id),
{
    lemma_history(pages, stored);
    assert(!newer(Some(trimmed(cursor_after(pages, stored))), pages[p][i].id@));
}

/// What a channel held at its first poll is not handed on by any later poll, where that
/// poll found the newest message first, as Discord lists them.
pub proof fn history_is_passed_over(
    messages: Seq<DiscordChannelMessage>,
    pages: Seq<Seq<DiscordChannelMessage>>,
    bot_id: Seq<char>,
    i: int,
)
    requires
        forall|k: int|
            0 <= k < messages.len() ==> !newer(
                Some(messages.first().id@),
                (#[trigger] messages[k]).id@,
            ),
        consistent_history(seq![messages] + pages, messages.first().id@),
        0 <= i < messages.len(),
    ensures
        polled_cursor(None, messages) is Some,
        !wanted(
            messages[i],
            trimmed(cursor_after(pages, polled_cursor(None, messages)->0)),
            bot_id,
        ),
{
    let stored = messages.first().id@;
    let all = seq![messages] + pages;
    assert(all[0][0] == messages.first());
    assert(is_known_id(all, stored, stored));
    lemma_first_page(messages, pages, bot_id);
    assert(all[0] == messages);
    no_message_is_handed_on_twice(all, stored, bot_id, 0, i);
}

/// A first page whose messages are not newer than the cursor makes no difference.
proof fn lemma_first_page(
    messages: Seq<DiscordChannelMessage>,
    pages: Seq<Seq<DiscordChannelMessage>>,
    bot_id: Seq<char>,
)
    requires
        messages.len() > 0,
        trimmed(messages.first().id@) == messages.first().id@,
        forall|k: int|
            0 <= k < messages.len() ==> !newer(
                Some(messages.first().id@),
                (#[trigger] messages[k]).id@,
            ),
    ensures
        cursor_after(seq![messages] + pages, messages.first().id@) == cursor_after(
            pages,
            messages.first().id@,
        ),
    decreases pages.len(),
{
    let all = seq![messages] + pages;
    let stored = messages.first().id@;
    if pages.len() == 0 {
        assert(all.drop_last() == Seq::<Seq<DiscordChannelMessage>>::empty());
        assert(cursor_after(all.drop_last(), stored) == stored);
        assert(all.last() == messages);
        lemma_nothing_newer(messages, stored, bot_id);
    } else {
        assert(all.drop_last() == seq![messages] + pages.drop_last());
        assert(all.last() == pages.last());
        lemma_first_page(messages, pages.drop_last(), bot_id);
    }
}

proof fn lemma_nothing_newer(
    messages: Seq<DiscordChannelMessage>,
    cursor: Seq<char>,
    bot_id: Seq<char>,
)
    requires
        forall|i: int| 0 <= i < messages.len() ==> !newer(Some(cursor), (#[trigger] messages[i]).id@),
    ensures
        mention_events(messages, cursor, bot_id) == Seq::<EmittedView>::empty(),
        advanced_cursor(messages, cursor) == cursor,
    decreases messages.len(),
{
    if messages.len() > 0 {
        let rest = messages.drop_first();
        assert forall|i: int| 0 <= i < rest.len() implies !newer(
            Some(cursor),
            (#[trigger] rest[i]).id@,
        ) by {
            assert(rest[i] == messages[i + 1]);
        }
        lemma_nothing_newer(rest, cursor, bot_id);
        assert(messages[0] == messages.first());
    }
}

/// The event tells of the message: who wrote it, what is left of its text, and where the
/// answer has to go.
pub open spec fn tells_of(
    event: EmittedView,
    msg: DiscordChannelMessage,
    bot_id: Seq<char>,
) -> bool {
    &&& event.user_id == msg.author.id@
    &&& plain::is_name(event.user_name, msg.author.global_name, msg.author.username@)
    &&& event.content == mention_text(msg.content@, bot_id)
    &&& event.thread_id is None
    &&& event.metadata.channel_id == msg.channel_id@
    &&& event.metadata.source_message_id == Some(msg.id@)
    &&& event.metadata.interaction_id is None
    &&& event.metadata.token is None
    &&& event.metadata.application_id is None
    &&& event.metadata.thread_id is None
}

/// A message that is newer than the stored cursor, that no webhook, no bot and not the bot
/// itself wrote, and in whose list of mentions the bot is or in whose text `<@ID>` or
/// `<@!ID>` stands, is handed on as the source of an event.
pub proof fn every_new_mention_is_handed_on(
    stored: Seq<char>,
    last_seen: Seq<char>,
    messages: Seq<DiscordChannelMessage>,
    bot_id: Seq<char>,
    i: int,
)
    requires
        plain::is_core(stored, last_seen),
        0 <= i < messages.len(),
        newer(Some(last_seen), messages[i].id@),
        messages[i].webhook_id is None,
        messages[i].author.bot == false,
        messages[i].author.id@ != bot_id,
        (exists|k: int|
            0 <= k < messages[i].mentions@.len() && (#[trigger] messages[i].mentions@[k]).id@
                == bot_id) || plain::stands_in(messages[i].content@, plain::tag(bot_id))
            || plain::stands_in(messages[i].content@, plain::nick_tag(bot_id)),
    ensures
        exists|e: int|
            0 <= e < polled_events(Some(stored), messages, bot_id).len() && tells_of(
                #[trigger] polled_events(Some(stored), messages, bot_id)[e],
                messages[i],
                bot_id,
            ),
{
    crate::text::trimming_leaves_the_core(stored);
    messages_mention_by_list_or_text(messages[i], bot_id);
    let events = polled_events(Some(stored), messages, bot_id);
    exactly_the_wanted_are_handed_on(messages, last_seen, bot_id);
    let event = mention_event(messages[i], bot_id);
    assert(wanted(messages[i], last_seen, bot_id));
    assert(mention_events(messages, last_seen, bot_id).contains(event));
    let e = choose|e: int| 0 <= e < events.len() && events[e] == event;
    lemma_tells_of(messages[i], bot_id);
    assert(tells_of(events[e], messages[i], bot_id));
}

/// Whatever is handed on tells of a message that is newer than the stored cursor, that no
/// webhook, no bot and not the bot itself wrote, and in whose list of mentions the bot is
/// or in whose text `<@ID>` or `<@!ID>` stands.
pub proof fn only_new_mentions_are_handed_on(
    stored: Seq<char>,
    last_seen: Seq<char>,
    messages: Seq<DiscordChannelMessage>,
    bot_id: Seq<char>,
    e: int,
)
    requires
        plain::is_core(stored, last_seen),
        0 <= e < polled_events(Some(stored), messages, bot_id).len(),
    ensures
        exists|i: int|
            0 <= i < messages.len() && tells_of(
                polled_events(Some(stored), messages, bot_id)[e],
                #[trigger] messages[i],
                bot_id,
            ) && newer(Some(last_seen), messages[i].id@) && plain::calls_bot(messages[i], bot_id),
{
    crate::text::trimming_leaves_the_core(stored);
    let events = polled_events(Some(stored), messages, bot_id);
    exactly_the_wanted_are_handed_on(messages, last_seen, bot_id);
    assert(mention_events(messages, last_seen, bot_id).contains(events[e]));
    let i = choose|i: int|
        0 <= i < messages.len() && wanted(#[trigger] messages[i], last_seen, bot_id) && events[e]
            == mention_event(messages[i], bot_id);
    messages_mention_by_list_or_text(messages[i], bot_id);
    lemma_tells_of(messages[i], bot_id);
    assert(tells_of(events[e], messages[i], bot_id));
}

proof fn lemma_tells_of(msg: DiscordChannelMessage, bot_id: Seq<char>)
    ensures
        tells_of(mention_event(msg, bot_id), msg, bot_id),
{
    match msg.author.global_name {
        Some(global) => {
            if global@.len() == 0 {
                assert(global@ =~= Seq::<char>::empty());
            }
        },
        None => {},
    }
}

/// A poll that finds one message hands on one event where the message is new and calls the
/// bot, and none otherwise.
pub proof fn one_message_is_one_event_or_none(
    stored: Seq<char>,
    last_seen: Seq<char>,
    msg: DiscordChannelMessage,
    bot_id: Seq<char>,
)
    requires
        plain::is_core(stored, last_seen),
    ensures
        ({
            let events = polled_events(Some(stored), seq![msg], bot_id);
            if newer(Some(last_seen), msg.id@) && plain::calls_bot(msg, bot_id) {
                events.len() == 1 && tells_of(events[0], msg, bot_id)
            } else {
                events.len() == 0
            }
        }),
{
    crate::text::trimming_leaves_the_core(stored);
    messages_mention_by_list_or_text(msg, bot_id);
    lemma_tells_of(msg, bot_id);
    assert(seq![msg].drop_first() == Seq::<DiscordChannelMessage>::empty());
    assert(mention_events(seq![msg].drop_first(), last_seen, bot_id) == Seq::<
        EmittedView,
    >::empty());
}

/// What a poll hands on of a page is what it hands on of its older part, and then what it
/// hands on of its newer part, which Discord lists first.
pub proof fn polls_hand_on_the_older_part_first(
    stored: Option<Seq<char>>,
    newer_part: Seq<DiscordChannelMessage>,
    older_part: Seq<DiscordChannelMessage>,
    bot_id: Seq<char>,
)
    ensures
        polled_events(stored, newer_part + older_part, bot_id) == polled_events(
            stored,
            older_part,
            bot_id,
        ) + polled_events(stored, newer_part, bot_id),
{
    match stored {
        Some(cursor) => older_messages_come_first(
            newer_part,
            older_part,
            trimmed(cursor),
            bot_id,
        ),
        None => {},
    }
}

/// Without a stored cursor a poll stores the ID of the message that is listed first, and
/// hands nothing on. With one it stores that cursor or the ID of a message that is newer,
/// and no message of the poll is newer than what it stores.
pub proof fn polls_store_the_newest_message(
    stored: Seq<char>,
    last_seen: Seq<char>,
    messages: Seq<DiscordChannelMessage>,
    bot_id: Seq<char>,
)
    requires
        plain::is_core(stored, last_seen),
    ensures
        polled_events(None, messages, bot_id).len() == 0,
        messages.len() == 0 ==> polled_cursor(None, messages) is None,
        messages.len() > 0 ==> polled_cursor(None, messages) == Some(messages[0].id@),
        polled_cursor(Some(stored), messages) is Some,
        ({
            let cursor = polled_cursor(Some(stored), messages)->0;
            &&& cursor == last_seen || newer(Some(last_seen), cursor) && exists|i: int|
                0 <= i < messages.len() && (#[trigger] messages[i]).id@ == cursor
            &&& consistent_order(messages, last_seen) ==> forall|i: int|
                0 <= i < messages.len() ==> !newer(Some(cursor), (#[trigger] messages[i]).id@)
            &&& (forall|i: int|
                0 <= i < messages.len() ==> !newer(Some(last_seen), (#[trigger] messages[i]).id@))
                ==> cursor == last_seen
        }),
{
    crate::text::trimming_leaves_the_core(stored);
    cursor_never_moves_back(messages, last_seen);
    if consistent_order(messages, last_seen) {
        nothing_is_newer_than_the_cursor(messages, last_seen);
    }
    if forall|i: int|
        0 <= i < messages.len() ==> !newer(Some(last_seen), (#[trigger] messages[i]).id@) {
        lemma_nothing_newer(messages, last_seen, bot_id);
    }
}

/// The cursor goes by one message at a time, from the oldest on: it moves to a message that
/// is newer than the stored cursor and than where it has come to, and else it stays.
pub proof fn the_cursor_goes_message_by_message(
    stored: Seq<char>,
    last_seen: Seq<char>,
    msg: DiscordChannelMessage,
    older: Seq<DiscordChannelMessage>,
)
    requires
        plain::is_core(stored, last_seen),
    ensures
        ({
            let before = polled_cursor(Some(stored), older)->0;
            let after = polled_cursor(Some(stored), seq![msg] + older)->0;
            if newer(Some(last_seen), msg.id@) && newer(Some(before), msg.id@) {
                after == msg.id@
            } else {
                after == before
            }
        }),
        polled_cursor(Some(stored), Seq::empty()) == Some(last_seen),
{
    crate::text::trimming_leaves_the_core(stored);
    let all = seq![msg] + older;
    assert(all.drop_first() == older);
    assert(all.first() == msg);
}

/// A poll has messages to go through exactly where Discord answered with a status from 200
/// to 299 and with messages, and then it goes through all of them.
pub proof fn answers_of_success_are_gone_through(
    status: u16,
    messages: Option<Vec<DiscordChannelMessage>>,
)
    ensures
        page_messages(None) is None,
        page_messages(Some(PolledPage { status, messages })) == (if status / 100 == 2
            && messages is Some {
            Some(messages->0@)
        } else {
            None
        }),
{
}

/// The views of a list of messages are those of the messages, one for one.
pub proof fn events_are_one_for_one(list: Seq<EmittedMessage>)
    ensures
        emitted_views(list).len() == list.len(),
        forall|i: int| 0 <= i < list.len() ==> emitted_views(list)[i] == (#[trigger] list[i])@,
{
}

} // verus!
