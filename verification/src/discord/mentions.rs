//! Mentions of the bot: finding them, taking them out, and telling new messages from
//! old ones.

use vstd::prelude::*;
use vstd::string::*;
use crate::digits::{parse_unsigned, unsigned_value};
use crate::discord::types::{DiscordChannelMessage, DiscordUser};
use crate::plain;
use crate::text::{
    bytes_before, contains_text, joined, occurs, remove_text, same_text, text_before, text_less,
    trim_text, trimmed, without,
};

verus! {

/// A mention of the user `id`.
pub open spec fn mention(id: Seq<char>) -> Seq<char> {
    "<@"@ + id + ">"@
}

/// A mention of the user `id` by nickname.
pub open spec fn nick_mention(id: Seq<char>) -> Seq<char> {
    "<@!"@ + id + ">"@
}

/// A mention of the user `id` stands in the text.
pub open spec fn text_mentions(content: Seq<char>, id: Seq<char>) -> bool {
    occurs(content, mention(id)) || occurs(content, nick_mention(id))
}

/// The text with the mentions of the user `id` taken out, and trimmed.
pub open spec fn without_mentions(content: Seq<char>, id: Seq<char>) -> Seq<char> {
    trimmed(without(without(content, mention(id)), nick_mention(id)))
}

/// The text that is handed on: never empty.
pub open spec fn mention_text(content: Seq<char>, id: Seq<char>) -> Seq<char> {
    let stripped = without_mentions(content, id);
    if stripped.len() == 0 {
        "mention"@
    } else {
        stripped
    }
}

/// The user `id` is in the list of mentioned users.
pub open spec fn lists_user(users: Seq<DiscordUser>, id: Seq<char>) -> bool {
    exists|i: int| 0 <= i < users.len() && (#[trigger] users[i]).id@ == id
}

/// The message mentions the user `id`.
pub open spec fn mentions_user(msg: DiscordChannelMessage, id: Seq<char>) -> bool {
    lists_user(msg.mentions@, id) || text_mentions(msg.content@, id)
}

/// `current` is a newer message than `last_seen`: the greater number, or the later
/// text where one of the two is no number. Every message is newer than none.
pub open spec fn newer(last_seen: Option<Seq<char>>, current: Seq<char>) -> bool {
    match last_seen {
        None => true,
        Some(prev) => match (unsigned_value(prev), unsigned_value(current)) {
            (Some(p), Some(c)) => c > p,
            _ => text_before(prev, current),
        },
    }
}

/// `"<@"`, the ID and `">"`.
pub fn mention_of(id: &str) -> (r: String)
    ensures
        r@ == mention(id@),
{
    joined(joined("<@", id).as_str(), ">")
}

/// `"<@!"`, the ID and `">"`.
pub fn nick_mention_of(id: &str) -> (r: String)
    ensures
        r@ == nick_mention(id@),
{
    joined(joined("<@!", id).as_str(), ">")
}

/// Whether a mention of the user `id` stands in the text.
pub fn content_mentions(content: &str, id: &str) -> (r: bool)
    ensures
        r == text_mentions(content@, id@),
{
    contains_text(content, mention_of(id).as_str()) || contains_text(
        content,
        nick_mention_of(id).as_str(),
    )
}

/// Whether the message mentions the bot.
pub fn message_mentions_bot(msg: &DiscordChannelMessage, bot_id: &str) -> (r: bool)
    ensures
        r == mentions_user(*msg, bot_id@),
{
    let mut i: usize = 0;
    while i < msg.mentions.len()
        invariant
            i <= msg.mentions@.len(),
            forall|k: int| 0 <= k < i ==> (#[trigger] msg.mentions@[k]).id@ != bot_id@,
        decreases msg.mentions@.len() - i,
    {
        if same_text(msg.mentions[i].id.as_str(), bot_id) {
            return true;
        }
        i = i + 1;
    }
    content_mentions(msg.content.as_str(), bot_id)
}

/// The text with the mentions of the bot taken out, and trimmed.
pub fn strip_bot_mention(content: &str, bot_id: &str) -> (r: String)
    ensures
        r@ == without_mentions(content@, bot_id@),
{
    let plain = remove_text(content, mention_of(bot_id).as_str());
    let bare = remove_text(plain.as_str(), nick_mention_of(bot_id).as_str());
    trim_text(bare.as_str())
}

/// The text that is handed on to the agent.
pub fn mention_content(content: &str, bot_id: &str) -> (r: String)
    ensures
        r@ == mention_text(content@, bot_id@),
{
    let stripped = strip_bot_mention(content, bot_id);
    if stripped.as_str().is_empty() {
        "mention".to_owned()
    } else {
        stripped
    }
}

/// Whether `current` is a newer message than the last one seen.
pub fn is_new_message(last_seen: Option<&str>, current: &str) -> (r: bool)
    ensures
        r == newer(
            match last_seen {
                Some(s) => Some(s@),
                None => None,
            },
            current@,
        ),
{
    match last_seen {
        None => true,
        Some(prev) => match (parse_unsigned(prev), parse_unsigned(current)) {
            (Some(p), Some(c)) => c > p,
            _ => text_less(prev, current),
        },
    }
}

proof fn lemma_bytes_irreflexive(a: Seq<u8>)
    ensures
        !bytes_before(a, a),
    decreases a.len(),
{
    if a.len() > 0 {
        lemma_bytes_irreflexive(a.drop_first());
    }
}

proof fn lemma_bytes_transitive(a: Seq<u8>, b: Seq<u8>, c: Seq<u8>)
    requires
        bytes_before(a, b),
        bytes_before(b, c),
    ensures
        bytes_before(a, c),
    decreases a.len(),
{
    if a.len() > 0 && b.len() > 0 && c.len() > 0 && a.first() == b.first() && b.first()
        == c.first() {
        lemma_bytes_transitive(a.drop_first(), b.drop_first(), c.drop_first());
    }
}

/// No message is newer than itself, and of two messages at most one is newer than the
/// other.
pub proof fn newer_is_asymmetric(a: Seq<char>, b: Seq<char>)
    ensures
        !newer(Some(a), a),
        newer(Some(a), b) ==> !newer(Some(b), a),
{
    let x = vstd::utf8::encode_utf8(a);
    let y = vstd::utf8::encode_utf8(b);
    lemma_bytes_irreflexive(x);
    if bytes_before(x, y) && bytes_before(y, x) {
        lemma_bytes_transitive(x, y, x);
    }
}

/// Where all three IDs are numbers, as Discord's are, or none of them is, being newer
/// carries over: newer than a newer message is newer.
pub proof fn newer_is_transitive(a: Seq<char>, b: Seq<char>, c: Seq<char>)
    requires
        unsigned_value(a) is Some == unsigned_value(b) is Some,
        unsigned_value(b) is Some == unsigned_value(c) is Some,
        newer(Some(a), b),
        newer(Some(b), c),
    ensures
        newer(Some(a), c),
{
    if unsigned_value(a) is None {
        lemma_bytes_transitive(
            vstd::utf8::encode_utf8(a),
            vstd::utf8::encode_utf8(b),
            vstd::utf8::encode_utf8(c),
        );
    }
}

/// Numbers are ordered as numbers: the message with the greater number is the newer one.
pub proof fn newer_orders_numbers(a: u64, b: u64)
    ensures
        newer(Some(crate::digits::decimal(a as nat)), crate::digits::decimal(b as nat)) <==> b > a,
{
    crate::digits::decimal_reads_back(a);
    crate::digits::decimal_reads_back(b);
}

/// The text that is handed on for a mention is never empty, and it has no white space
/// at either end.
pub proof fn mention_text_is_never_empty(content: Seq<char>, id: Seq<char>)
    ensures
        mention_text(content, id).len() > 0,
        !crate::text::white_space(mention_text(content, id).first()),
        !crate::text::white_space(mention_text(content, id).last()),
{
    reveal_strlit("mention");
    crate::text::lemma_trimmed_ends(
        without(without(content, mention(id)), nick_mention(id)),
    );
}

/// A mention in front of a text is taken out of it, and makes no other difference.
pub proof fn leading_mention_is_taken_out(rest: Seq<char>, id: Seq<char>)
    ensures
        text_mentions(mention(id) + rest, id),
        without_mentions(mention(id) + rest, id) == without_mentions(rest, id),
{
    reveal_strlit("<@");
    let content = mention(id) + rest;
    assert(content.subrange(0, mention(id).len() as int) == mention(id));
    assert(crate::text::occurs_at(content, mention(id), 0));
    assert(content.skip(mention(id).len() as int) == rest);
}

/// A text that does not mention the user is only trimmed.
pub proof fn text_without_mentions_is_kept(content: Seq<char>, id: Seq<char>)
    requires
        !text_mentions(content, id),
    ensures
        without_mentions(content, id) == trimmed(content),
{
    crate::text::lemma_without_absent(content, mention(id));
    crate::text::lemma_without_absent(content, nick_mention(id));
}

/// A text mentions a user exactly where `<@ID>` or `<@!ID>` stands in it, character by
/// character.
pub proof fn texts_mention_by_their_characters(content: Seq<char>, id: Seq<char>)
    ensures
        text_mentions(content, id) == plain::names_user(content, id),
        mention(id) == plain::tag(id),
        nick_mention(id) == plain::nick_tag(id),
{
    reveal_strlit("<@");
    reveal_strlit("<@!");
    reveal_strlit(">");
    assert("<@"@ =~= seq!['<', '@']);
    assert("<@!"@ =~= seq!['<', '@', '!']);
    assert(">"@ =~= seq!['>']);
    crate::text::texts_occur_character_by_character(content, mention(id));
    crate::text::texts_occur_character_by_character(content, nick_mention(id));
}

/// A message mentions a user exactly where the user is in its list, or its text holds a
/// mention.
pub proof fn messages_mention_by_list_or_text(msg: DiscordChannelMessage, id: Seq<char>)
    ensures
        mentions_user(msg, id) <==> (exists|k: int|
            0 <= k < msg.mentions@.len() && (#[trigger] msg.mentions@[k]).id@ == id)
            || plain::names_user(msg.content@, id),
{
    texts_mention_by_their_characters(msg.content@, id);
}

/// One mention in a text is cut out of it: what stands before it and what stands behind
/// it are handed on, and nothing else is changed but the blanks at the ends.
pub proof fn one_mention_is_cut_out(
    before: Seq<char>,
    rest: Seq<char>,
    id: Seq<char>,
    core: Seq<char>,
)
    requires
        forall|at: int|
            0 <= at < before.len() ==> !#[trigger] plain::stands_at(
                before + plain::tag(id) + rest,
                plain::tag(id),
                at,
            ),
        !plain::stands_in(rest, plain::tag(id)),
        !plain::stands_in(before + rest, plain::nick_tag(id)),
        plain::is_core(before + rest, core),
    ensures
        without_mentions(before + plain::tag(id) + rest, id) == core,
{
    texts_mention_by_their_characters(rest, id);
    let m = mention(id);
    crate::text::first_occurrence_is_taken_out(before, m, rest);
    crate::text::absent_texts_are_not_taken_out(rest, m);
    crate::text::absent_texts_are_not_taken_out(before + rest, nick_mention(id));
    crate::text::trimming_leaves_the_core(before + rest);
}

/// One mention by nickname in a text is cut out of it in the same way.
pub proof fn one_nick_mention_is_cut_out(
    before: Seq<char>,
    rest: Seq<char>,
    id: Seq<char>,
    core: Seq<char>,
)
    requires
        ({
            let nick = plain::nick_tag(id);
            &&& !plain::stands_in(before + nick + rest, plain::tag(id))
            &&& forall|at: int|
                0 <= at < before.len() ==> !#[trigger] plain::stands_at(
                    before + nick + rest,
                    nick,
                    at,
                )
            &&& !plain::stands_in(rest, nick)
        }),
        plain::is_core(before + rest, core),
    ensures
        without_mentions(before + plain::nick_tag(id) + rest, id) == core,
{
    texts_mention_by_their_characters(rest, id);
    let nick = nick_mention(id);
    crate::text::absent_texts_are_not_taken_out(before + nick + rest, mention(id));
    crate::text::first_occurrence_is_taken_out(before, nick, rest);
    crate::text::absent_texts_are_not_taken_out(rest, nick);
    crate::text::trimming_leaves_the_core(before + rest);
}

/// Where a text holds more mentions, they are cut out one after the other: first those
/// without the mark of a nickname, from the left, and then those with it.
pub proof fn mentions_are_cut_out_from_the_left(before: Seq<char>, rest: Seq<char>, id: Seq<char>)
    ensures
        ({
            let m = plain::tag(id);
            let nick = plain::nick_tag(id);
            &&& (forall|at: int|
                0 <= at < before.len() ==> !#[trigger] plain::stands_at(
                    before + m + rest,
                    m,
                    at,
                )) ==> without_mentions(before + m + rest, id) == trimmed(
                without(before + without(rest, m), nick),
            )
            &&& (!plain::stands_in(before + nick + rest, m) && forall|at: int|
                0 <= at < before.len() ==> !#[trigger] plain::stands_at(
                    before + nick + rest,
                    nick,
                    at,
                )) ==> without_mentions(before + nick + rest, id) == trimmed(
                before + without(rest, nick),
            )
        }),
{
    texts_mention_by_their_characters(rest, id);
    let m = mention(id);
    let nick = nick_mention(id);
    if forall|at: int|
        0 <= at < before.len() ==> !#[trigger] plain::stands_at(before + m + rest, m, at) {
        crate::text::first_occurrence_is_taken_out(before, m, rest);
    }
    if !plain::stands_in(before + nick + rest, m) && forall|at: int|
        0 <= at < before.len() ==> !#[trigger] plain::stands_at(before + nick + rest, nick, at) {
        crate::text::absent_texts_are_not_taken_out(before + nick + rest, m);
        crate::text::first_occurrence_is_taken_out(before, nick, rest);
    }
}

/// A text without a mention loses nothing but the blanks at its ends.
pub proof fn texts_without_a_mention_keep_their_core(
    content: Seq<char>,
    id: Seq<char>,
    core: Seq<char>,
)
    requires
        !plain::names_user(content, id),
        plain::is_core(content, core),
    ensures
        without_mentions(content, id) == core,
{
    texts_mention_by_their_characters(content, id);
    text_without_mentions_is_kept(content, id);
    crate::text::trimming_leaves_the_core(content);
}

/// What is handed on is the text that is left, and the word `mention` only where nothing
/// is left.
pub proof fn what_is_left_is_handed_on(content: Seq<char>, id: Seq<char>)
    ensures
        without_mentions(content, id).len() > 0 ==> mention_text(content, id) == without_mentions(
            content,
            id,
        ),
        without_mentions(content, id).len() == 0 ==> mention_text(content, id) == seq![
            'm',
            'e',
            'n',
            't',
            'i',
            'o',
            'n',
        ],
{
    reveal_strlit("mention");
    assert("mention"@ =~= seq!['m', 'e', 'n', 't', 'i', 'o', 'n']);
}

/// A message is newer than another by its number; where one of the two has none, by the
/// first byte in which their IDs differ; and newer than none always.
pub proof fn newer_means_greater_or_later(a: Seq<char>, b: Seq<char>)
    ensures
        newer(None, b),
        unsigned_value(a) is Some && unsigned_value(b) is Some ==> newer(Some(a), b) == (
        unsigned_value(a)->0 < unsigned_value(b)->0),
        unsigned_value(a) is None || unsigned_value(b) is None ==> newer(Some(a), b)
            == plain::comes_before(vstd::utf8::encode_utf8(a), vstd::utf8::encode_utf8(b)),
{
    crate::text::texts_are_ordered_by_their_bytes(a, b);
}

} // verus!
