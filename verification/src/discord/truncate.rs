//! Cutting a message of more than 2000 bytes down to at most 1990 bytes and a mark.

use vstd::prelude::*;
use vstd::string::*;
use vstd::utf8::*;
use crate::text::{chars_of, string_of};

verus! {

/// A message of at most this many bytes is sent as it is.
pub const MESSAGE_LIMIT: usize = 2000;

/// What is kept of a longer message, in bytes.
pub const KEPT_LIMIT: usize = 1990;

/// What is put behind the part that is kept.
pub open spec fn truncation_mark() -> Seq<char> {
    "\n... (truncated)"@
}

/// The number of bytes of `s` in UTF-8.
pub open spec fn byte_len(s: Seq<char>) -> nat {
    encode_utf8(s).len()
}

/// The greatest number, up to `upto`, of leading characters of `s` that take at most
/// `max` bytes.
pub open spec fn kept_chars(s: Seq<char>, upto: nat, max: nat) -> nat
    decreases upto,
{
    if upto == 0 || byte_len(s.take(upto as int)) <= max {
        upto
    } else {
        kept_chars(s, (upto - 1) as nat, max)
    }
}

/// `s` as it is sent: whole, or cut at a character boundary and marked as cut.
pub open spec fn truncated(s: Seq<char>) -> Seq<char> {
    if byte_len(s) <= MESSAGE_LIMIT {
        s
    } else {
        s.take(kept_chars(s, s.len(), KEPT_LIMIT as nat) as int) + truncation_mark()
    }
}

pub proof fn lemma_encode_concat(a: Seq<char>, b: Seq<char>)
    ensures
        encode_utf8(a + b) == encode_utf8(a) + encode_utf8(b),
    decreases a.len(),
{
    if a.len() == 0 {
        assert(a + b == b);
    } else {
        lemma_encode_concat(a.drop_first(), b);
        assert((a + b).drop_first() == a.drop_first() + b);
    }
}

proof fn lemma_byte_len_take(s: Seq<char>, k: int)
    requires
        0 <= k < s.len(),
    ensures
        byte_len(s.take(k + 1)) == byte_len(s.take(k)) + encode_scalar(s[k] as u32).len(),
{
    assert(s.take(k + 1) == s.take(k) + seq![s[k]]);
    lemma_encode_concat(s.take(k), seq![s[k]]);
    assert(seq![s[k]].drop_first() == Seq::<char>::empty());
    assert(encode_utf8(seq![s[k]].drop_first()) == Seq::<u8>::empty());
    assert(encode_utf8(seq![s[k]]) == encode_scalar(s[k] as u32) + Seq::<u8>::empty());
}

proof fn lemma_byte_len_grows(s: Seq<char>, j: int, k: int)
    requires
        0 <= j <= k <= s.len(),
    ensures
        byte_len(s.take(j)) <= byte_len(s.take(k)),
    decreases k - j,
{
    if j < k {
        lemma_byte_len_grows(s, j, k - 1);
        lemma_byte_len_take(s, k - 1);
    }
}

proof fn lemma_kept_chars(s: Seq<char>, upto: nat, k: nat, max: nat)
    requires
        k <= upto <= s.len(),
        byte_len(s.take(k as int)) <= max,
        k < upto ==> byte_len(s.take(k as int + 1)) > max,
    ensures
        kept_chars(s, upto, max) == k,
    decreases upto,
{
    if k < upto {
        lemma_byte_len_grows(s, k as int + 1, upto as int);
        lemma_kept_chars(s, (upto - 1) as nat, k, max);
    }
}

/// The number of bytes that a character takes in UTF-8.
fn char_bytes(c: char) -> (n: usize)
    ensures
        n == encode_scalar(c as u32).len(),
        1 <= n <= 4,
{
    let code: u32 = c as u32;
    if code < 0x80 {
        1
    } else if code < 0x800 {
        2
    } else if code < 0x10000 {
        3
    } else {
        4
    }
}

/// Shortens a message of more than 2000 bytes: what is kept of it takes at most 1990
/// bytes, and the mark is put behind.
pub fn truncate_message(content: &str) -> (r: String)
    ensures
        r@ == truncated(content@),
{
    if content.as_bytes().len() <= MESSAGE_LIMIT {
        return content.to_owned();
    }
    let chars = chars_of(content);
    let mut kept: usize = 0;
    let mut bytes: usize = 0;
    assert(content@.take(0) == Seq::<char>::empty());
    while kept < chars.len() && char_bytes(chars[kept]) <= KEPT_LIMIT - bytes
        invariant
            kept <= chars@.len(),
            chars@ == content@,
            bytes == byte_len(content@.take(kept as int)),
            bytes <= KEPT_LIMIT,
        decreases chars@.len() - kept,
    {
        proof {
            lemma_byte_len_take(content@, kept as int);
        }
        bytes = bytes + char_bytes(chars[kept]);
        kept = kept + 1;
    }
    proof {
        if kept < content@.len() {
            lemma_byte_len_take(content@, kept as int);
        }
        lemma_kept_chars(content@, content@.len(), kept as nat, KEPT_LIMIT as nat);
    }
    let mut cut = string_of(&chars, 0, kept);
    cut.append("\n... (truncated)");
    assert(content@.subrange(0, kept as int) == content@.take(kept as int));
    cut
}

/// A truncated message is at most 2006 bytes long, and one of at most 2000 bytes is
/// not touched.
pub proof fn truncated_is_bounded(s: Seq<char>)
    ensures
        byte_len(truncated(s)) <= 2006,
        byte_len(s) <= 2000 ==> truncated(s) == s,
{
    reveal_strlit("\n... (truncated)");
    assert(is_ascii_chars(truncation_mark()));
    is_ascii_chars_encode_utf8(truncation_mark());
    if byte_len(s) > 2000 {
        let k = kept_chars(s, s.len(), KEPT_LIMIT as nat);
        truncated_keeps_the_longest_prefix(s);
        lemma_encode_concat(s.take(k as int), truncation_mark());
    }
}

/// What is kept of a message that is too long is a prefix of at most 1990 bytes, and
/// no longer prefix takes as few.
pub proof fn truncated_keeps_the_longest_prefix(s: Seq<char>)
    ensures
        ({
            let k = kept_chars(s, s.len(), KEPT_LIMIT as nat);
            &&& k <= s.len()
            &&& byte_len(s.take(k as int)) <= 1990
            &&& forall|j: int| k < j <= s.len() ==> byte_len(#[trigger] s.take(j)) > 1990
            &&& byte_len(s) > 2000 ==> truncated(s) == s.take(k as int) + truncation_mark()
        }),
{
    lemma_kept_is_longest(s, s.len());
}

proof fn lemma_kept_is_longest(s: Seq<char>, upto: nat)
    requires
        upto <= s.len(),
    ensures
        ({
            let k = kept_chars(s, upto, 1990);
            &&& k <= upto
            &&& byte_len(s.take(k as int)) <= 1990
            &&& forall|j: int| k < j <= upto ==> byte_len(#[trigger] s.take(j)) > 1990
        }),
    decreases upto,
{
    if upto == 0 {
        assert(s.take(0) == Seq::<char>::empty());
    } else if byte_len(s.take(upto as int)) > 1990 {
        lemma_kept_is_longest(s, (upto - 1) as nat);
    }
}

/// A message of at most 2000 bytes is sent character by character. Of a longer one the
/// longest beginning of at most 1990 bytes is sent, unchanged, and the mark behind it.
pub proof fn messages_are_sent_as_written_or_cut(s: Seq<char>)
    ensures
        encode_utf8(s).len() <= 2000 ==> truncated(s) == s,
        encode_utf8(s).len() > 2000 ==> exists|k: int| #[trigger]
            s.take(k) + "\n... (truncated)"@ == truncated(s) && 0 <= k <= s.len() && encode_utf8(
                s.take(k),
            ).len() <= 1990 && (forall|j: int|
                k < j <= s.len() ==> encode_utf8(#[trigger] s.take(j)).len() > 1990),
{
    truncated_keeps_the_longest_prefix(s);
    let k = kept_chars(s, s.len(), KEPT_LIMIT as nat) as int;
    if encode_utf8(s).len() > 2000 {
        assert(byte_len(s) > 2000);
        assert(s.take(k) + "\n... (truncated)"@ == truncated(s));
        assert forall|j: int| k < j <= s.len() implies encode_utf8(#[trigger] s.take(j)).len()
            > 1990 by {
            assert(byte_len(s.take(j)) > 1990);
        }
    }
}

} // verus!
