//! The words in which the laws are stated: over characters, fields and numbers alone. No
//! function of the library is defined or contracted by them.

use vstd::prelude::*;
use crate::discord::types::{DiscordChannelMessage, DiscordInteraction, DiscordUser};
use crate::json::JsonTree;

verus! {

/// `part` stands in `text` at position `at`, character by character.
pub open spec fn stands_at(text: Seq<char>, part: Seq<char>, at: int) -> bool {
    &&& 0 <= at
    &&& at + part.len() <= text.len()
    &&& forall|j: int| 0 <= j < part.len() ==> #[trigger] part[j] == text[at + j]
}

/// `part` stands somewhere in `text`.
pub open spec fn stands_in(text: Seq<char>, part: Seq<char>) -> bool {
    exists|at: int| stands_at(text, part, at)
}

/// `text` starts with `part`.
pub open spec fn starts(text: Seq<char>, part: Seq<char>) -> bool {
    stands_at(text, part, 0)
}

/// `text` ends with `part`.
pub open spec fn ends(text: Seq<char>, part: Seq<char>) -> bool {
    stands_at(text, part, text.len() - part.len())
}

/// The characters of a mention: `<@ID>`.
pub open spec fn tag(id: Seq<char>) -> Seq<char> {
    seq!['<', '@'] + id + seq!['>']
}

/// The characters of a mention by nickname: `<@!ID>`.
pub open spec fn nick_tag(id: Seq<char>) -> Seq<char> {
    seq!['<', '@', '!'] + id + seq!['>']
}

/// A mention of the user stands in the text, with or without the mark of a nickname.
pub open spec fn names_user(text: Seq<char>, id: Seq<char>) -> bool {
    stands_in(text, tag(id)) || stands_in(text, nick_tag(id))
}

/// The character, small where it is an ASCII capital.
pub open spec fn small_letter(c: char) -> char {
    if 'A' <= c <= 'Z' {
        ((c as u32) + 32) as char
    } else {
        c
    }
}

/// The text in small ASCII letters.
pub open spec fn small(text: Seq<char>) -> Seq<char> {
    Seq::new(text.len(), |i: int| small_letter(text[i]))
}

/// White space: the tab and its neighbours, the blank, and Unicode's others.
pub open spec fn is_blank(c: char) -> bool {
    let n = c as int;
    ||| 9 <= n <= 13 || n == 32 || n == 133 || n == 160 || n == 5760
    ||| 8192 <= n <= 8202 || n == 8232 || n == 8233 || n == 8239 || n == 8287 || n == 12288
}

/// `core` is what is left of `text` once `before` characters in front and those from
/// `upto` on are left out, which are blank; it neither begins nor ends with a blank.
pub open spec fn core_between(
    text: Seq<char>,
    core: Seq<char>,
    before: int,
    upto: int,
) -> bool {
    &&& 0 <= before <= upto <= text.len()
    &&& core == text.subrange(before, upto)
    &&& forall|i: int| 0 <= i < before ==> is_blank(#[trigger] text[i])
    &&& forall|i: int| upto <= i < text.len() ==> is_blank(#[trigger] text[i])
    &&& before < upto ==> !is_blank(text[before]) && !is_blank(text[upto - 1])
}

/// `core` is `text` without the blanks at its ends.
pub open spec fn is_core(text: Seq<char>, core: Seq<char>) -> bool {
    exists|before: int, upto: int| core_between(text, core, before, upto)
}

/// What an object holds under a key.
pub open spec fn field(tree: JsonTree, key: Seq<char>) -> Option<JsonTree> {
    match tree {
        JsonTree::Object(map) => if map.dom().contains(key) {
            Some(map[key])
        } else {
            None
        },
        _ => None,
    }
}

/// The string that an object holds under a key.
pub open spec fn text_under(tree: JsonTree, key: Seq<char>) -> Option<Seq<char>> {
    match field(tree, key) {
        Some(JsonTree::Text(text)) => Some(text),
        _ => None,
    }
}

/// The string that an object holds under a key, or another one.
pub open spec fn text_under_or(tree: JsonTree, key: Seq<char>, other: Seq<char>) -> Seq<char> {
    match text_under(tree, key) {
        Some(text) => text,
        None => other,
    }
}

/// The first array of bytes comes before the second: at the first place where they
/// differ it has the smaller byte, or it ends there.
pub open spec fn comes_before(a: Seq<u8>, b: Seq<u8>) -> bool {
    exists|k: int| differ_first_at(a, b, k)
}

/// The two arrays are the same up to `k`, and there the first has the smaller byte or ends.
pub open spec fn differ_first_at(a: Seq<u8>, b: Seq<u8>, k: int) -> bool {
    &&& 0 <= k <= a.len()
    &&& k < b.len()
    &&& forall|i: int| 0 <= i < k ==> #[trigger] a[i] == b[i]
    &&& k == a.len() || a[k] < b[k]
}

/// `name` is the global name where there is one with a character in it, and else the user
/// name.
pub open spec fn is_name(
    name: Option<Seq<char>>,
    global_name: Option<String>,
    username: Seq<char>,
) -> bool {
    match global_name {
        Some(global) => name == Some(
            if global@ == Seq::<char>::empty() {
                username
            } else {
                global@
            },
        ),
        None => name == Some(username),
    }
}

/// A person other than the bot wrote the message in the channel, and the bot is in its
/// list of mentions or its text names the bot.
pub open spec fn calls_bot(msg: DiscordChannelMessage, bot_id: Seq<char>) -> bool {
    &&& msg.webhook_id is None
    &&& msg.author.bot == false
    &&& msg.author.id@ != bot_id
    &&& (exists|k: int| 0 <= k < msg.mentions@.len() && (#[trigger] msg.mentions@[k]).id@ == bot_id)
        || names_user(msg.content@, bot_id)
}

/// A header that carries no credentials, by its name and its value without the blanks at its
/// ends.
pub open spec fn tells_no_secret(name: Seq<char>, core: Seq<char>) -> bool {
    &&& small(name) != "authorization"@
    &&& small(name) != "proxy-authorization"@
    &&& small(name) != "cookie"@
    &&& small(name) != "x-api-key"@
    &&& !starts(small(name), "x-auth-"@)
    &&& !starts(small(core), "bearer "@)
}

/// Of the value under the key, `null` and a text of blanks count for nothing.
pub open spec fn nothing_under(tree: JsonTree, key: Seq<char>) -> bool {
    match field(tree, key) {
        None => true,
        Some(JsonTree::Null) => true,
        Some(JsonTree::Text(text)) => forall|i: int|
            0 <= i < text.len() ==> is_blank(#[trigger] text[i]),
        Some(_) => false,
    }
}

/// `user` acts: the member's user where there is a member, else the user of the
/// interaction.
pub open spec fn acts(interaction: DiscordInteraction, user: DiscordUser) -> bool {
    match interaction.member {
        Some(member) => user == member.user,
        None => interaction.user == Some(user),
    }
}

} // verus!
