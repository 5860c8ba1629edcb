//! Text operations, each stated over the characters of the strings it takes.

use vstd::prelude::*;
use vstd::string::*;
use vstd::utf8::*;
use crate::plain;

verus! {

/// `String::push` appends the character to the end of the string.
pub assume_specification[ String::push ](s: &mut String, c: char)
    ensures
        final(s)@ == old(s)@.push(c),
;

/// `char::is_whitespace` tells whether the character has Unicode's `White_Space`
/// property; the contract spells out the characters that have it.
pub assume_specification[ char::is_whitespace ](c: char) -> (r: bool)
    ensures
        r == white_space(c),
;

/// The characters that have Unicode's `White_Space` property.
pub open spec fn white_space(c: char) -> bool {
    ||| '\u{9}' <= c <= '\u{d}'
    ||| c == ' '
    ||| c == '\u{85}'
    ||| c == '\u{a0}'
    ||| c == '\u{1680}'
    ||| '\u{2000}' <= c <= '\u{200a}'
    ||| c == '\u{2028}'
    ||| c == '\u{2029}'
    ||| c == '\u{202f}'
    ||| c == '\u{205f}'
    ||| c == '\u{3000}'
}

/// `s` without its leading white space.
pub open spec fn trimmed_start(s: Seq<char>) -> Seq<char>
    decreases s.len(),
{
    if s.len() > 0 && white_space(s.first()) {
        trimmed_start(s.drop_first())
    } else {
        s
    }
}

/// `s` without its trailing white space.
pub open spec fn trimmed_end(s: Seq<char>) -> Seq<char>
    decreases s.len(),
{
    if s.len() > 0 && white_space(s.last()) {
        trimmed_end(s.drop_last())
    } else {
        s
    }
}

/// `s` without white space at either end.
pub open spec fn trimmed(s: Seq<char>) -> Seq<char> {
    trimmed_end(trimmed_start(s))
}

/// An ASCII capital becomes small; any other character stays.
pub open spec fn lower_char(c: char) -> char {
    if 'A' <= c <= 'Z' {
        ((c as u8) + 32) as u8 as char
    } else {
        c
    }
}

/// A small ASCII letter becomes a capital; any other character stays.
pub open spec fn upper_char(c: char) -> char {
    if 'a' <= c <= 'z' {
        ((c as u8) - 32) as u8 as char
    } else {
        c
    }
}

pub open spec fn lowered(s: Seq<char>) -> Seq<char> {
    s.map_values(|c: char| lower_char(c))
}

pub open spec fn uppered(s: Seq<char>) -> Seq<char> {
    s.map_values(|c: char| upper_char(c))
}

/// `needle` stands in `hay` at position `at`.
pub open spec fn occurs_at(hay: Seq<char>, needle: Seq<char>, at: int) -> bool {
    &&& 0 <= at
    &&& at + needle.len() <= hay.len()
    &&& hay.subrange(at, at + needle.len()) == needle
}

/// `needle` stands somewhere in `hay`.
pub open spec fn occurs(hay: Seq<char>, needle: Seq<char>) -> bool {
    exists|at: int| occurs_at(hay, needle, at)
}

pub open spec fn begins_with(s: Seq<char>, prefix: Seq<char>) -> bool {
    occurs_at(s, prefix, 0)
}

pub open spec fn ends_in(s: Seq<char>, suffix: Seq<char>) -> bool {
    occurs_at(s, suffix, s.len() - suffix.len())
}

/// `hay` with every occurrence of `needle` taken out, found from the left and
/// without overlap.
pub open spec fn without(hay: Seq<char>, needle: Seq<char>) -> Seq<char>
    decreases hay.len(),
{
    if needle.len() == 0 || hay.len() == 0 {
        hay
    } else if occurs_at(hay, needle, 0) {
        without(hay.skip(needle.len() as int), needle)
    } else {
        seq![hay.first()] + without(hay.drop_first(), needle)
    }
}

/// The pieces of `s` between the separators.
pub open spec fn pieces(s: Seq<char>, separator: char) -> Seq<Seq<char>>
    decreases s.len(),
{
    if s.len() == 0 {
        seq![Seq::empty()]
    } else {
        let before = pieces(s.drop_last(), separator);
        if s.last() == separator {
            before.push(Seq::empty())
        } else {
            before.drop_last().push(before.last().push(s.last()))
        }
    }
}

/// The non-empty elements of a list of texts, trimmed and in small ASCII letters.
pub open spec fn normalized(list: Seq<Seq<char>>) -> Seq<Seq<char>>
    decreases list.len(),
{
    if list.len() == 0 {
        Seq::empty()
    } else {
        let before = normalized(list.drop_last());
        let item = lowered(trimmed(list.last()));
        if item.len() == 0 {
            before
        } else {
            before.push(item)
        }
    }
}

/// The views of a list of strings.
pub open spec fn views(list: Seq<String>) -> Seq<Seq<char>> {
    list.map_values(|s: String| s@)
}

/// `a` comes before `b` in the lexicographic order of their bytes.
pub open spec fn bytes_before(a: Seq<u8>, b: Seq<u8>) -> bool
    decreases a.len(),
{
    if b.len() == 0 {
        false
    } else if a.len() == 0 {
        true
    } else if a.first() != b.first() {
        a.first() < b.first()
    } else {
        bytes_before(a.drop_first(), b.drop_first())
    }
}

/// `a` comes before `b` in the order of texts: lexicographic on their UTF-8 bytes.
pub open spec fn text_before(a: Seq<char>, b: Seq<char>) -> bool {
    bytes_before(encode_utf8(a), encode_utf8(b))
}

/// The characters of a string.
pub fn chars_of(s: &str) -> (r: Vec<char>)
    ensures
        r@ == s@,
{
    let mut out: Vec<char> = Vec::new();
    for c in it: s.chars()
        invariant
            it.seq() == s@,
            out@ == s@.take(it.index()),
    {
        out.push(c);
        assert(s@.take(it.index() + 1) == s@.take(it.index()).push(c));
    }
    assert(s@.take(s@.len() as int) == s@);
    out
}

/// The string made of `chars[from..to]`.
pub fn string_of(chars: &Vec<char>, from: usize, to: usize) -> (r: String)
    requires
        from <= to <= chars@.len(),
    ensures
        r@ == chars@.subrange(from as int, to as int),
{
    let mut out = String::new();
    let mut i: usize = from;
    while i < to
        invariant
            from <= i <= to <= chars@.len(),
            out@ == chars@.subrange(from as int, i as int),
        decreases to - i,
    {
        out.push(chars[i]);
        assert(chars@.subrange(from as int, i + 1) == chars@.subrange(from as int, i as int).push(
            chars@[i as int],
        ));
        i = i + 1;
    }
    out
}

/// Whether two strings hold the same characters.
pub fn same_text(a: &str, b: &str) -> (r: bool)
    ensures
        r == (a@ == b@),
{
    let x = a.as_bytes();
    let y = b.as_bytes();
    proof {
        encode_utf8_decode_utf8(a@);
        encode_utf8_decode_utf8(b@);
    }
    if x.len() != y.len() {
        return false;
    }
    let mut i: usize = 0;
    while i < x.len()
        invariant
            i <= x@.len(),
            x@.len() == y@.len(),
            x@ == encode_utf8(a@),
            y@ == encode_utf8(b@),
            forall|k: int| 0 <= k < i ==> x@[k] == y@[k],
        decreases x@.len() - i,
    {
        if x[i] != y[i] {
            return false;
        }
        i = i + 1;
    }
    assert(x@ =~= y@);
    true
}

/// The concatenation of two strings.
pub fn joined(a: &str, b: &str) -> (r: String)
    ensures
        r@ == a@ + b@,
{
    let mut out = a.to_owned();
    out.append(b);
    out
}

/// `s` without its leading white space.
pub fn trim_start_text(s: &str) -> (r: String)
    ensures
        r@ == trimmed_start(s@),
{
    let chars = chars_of(s);
    let mut from: usize = 0;
    assert(s@.skip(0) == s@);
    while from < chars.len() && chars[from].is_whitespace()
        invariant
            from <= chars@.len(),
            chars@ == s@,
            trimmed_start(s@) == trimmed_start(s@.skip(from as int)),
        decreases chars@.len() - from,
    {
        assert(s@.skip(from as int).drop_first() == s@.skip(from + 1));
        from = from + 1;
    }
    string_of(&chars, from, chars.len())
}

/// `s` without white space at either end.
pub fn trim_text(s: &str) -> (r: String)
    ensures
        r@ == trimmed(s@),
{
    let start = trim_start_text(s);
    let chars = chars_of(start.as_str());
    let mut to: usize = chars.len();
    assert(start@.take(to as int) == start@);
    while to > 0 && chars[to - 1].is_whitespace()
        invariant
            to <= chars@.len(),
            chars@ == start@,
            trimmed_end(start@) == trimmed_end(start@.take(to as int)),
        decreases to,
    {
        assert(start@.take(to as int).drop_last() == start@.take(to - 1));
        to = to - 1;
    }
    string_of(&chars, 0, to)
}

/// `s` in small ASCII letters.
pub fn lower_text(s: &str) -> (r: String)
    ensures
        r@ == lowered(s@),
{
    let mut out = String::new();
    for c in it: s.chars()
        invariant
            it.seq() == s@,
            out@ == lowered(s@.take(it.index())),
    {
        let small = if 'A' <= c && c <= 'Z' {
            ((c as u8) + 32) as char
        } else {
            c
        };
        out.push(small);
        assert(out@ =~= lowered(s@.take(it.index() + 1)));
    }
    assert(s@.take(s@.len() as int) == s@);
    out
}

/// `s` in ASCII capitals.
pub fn upper_text(s: &str) -> (r: String)
    ensures
        r@ == uppered(s@),
{
    let mut out = String::new();
    for c in it: s.chars()
        invariant
            it.seq() == s@,
            out@ == uppered(s@.take(it.index())),
    {
        let capital = if 'a' <= c && c <= 'z' {
            ((c as u8) - 32) as char
        } else {
            c
        };
        out.push(capital);
        assert(out@ =~= uppered(s@.take(it.index() + 1)));
    }
    assert(s@.take(s@.len() as int) == s@);
    out
}

/// Whether `needle` stands in `hay` at position `at`.
fn matches_at(hay: &Vec<char>, needle: &Vec<char>, at: usize) -> (r: bool)
    requires
        at <= hay@.len(),
    ensures
        r == occurs_at(hay@, needle@, at as int),
{
    if needle.len() > hay.len() - at {
        return false;
    }
    let mut i: usize = 0;
    while i < needle.len()
        invariant
            i <= needle@.len(),
            at + needle@.len() <= hay@.len() <= usize::MAX,
            forall|k: int| 0 <= k < i ==> hay@[at + k] == needle@[k],
        decreases needle@.len() - i,
    {
        if hay[at + i] != needle[i] {
            assert(hay@.subrange(at as int, at + needle@.len())[i as int] != needle@[i as int]);
            return false;
        }
        i = i + 1;
    }
    assert(hay@.subrange(at as int, at + needle@.len()) =~= needle@);
    true
}

/// Whether `needle` stands somewhere in `hay`.
pub fn contains_text(hay: &str, needle: &str) -> (r: bool)
    ensures
        r == occurs(hay@, needle@),
{
    let h = chars_of(hay);
    let n = chars_of(needle);
    if n.len() > h.len() {
        return false;
    }
    let last: usize = h.len() - n.len();
    let mut at: usize = 0;
    while at < last
        invariant
            at <= last,
            last == h@.len() - n@.len(),
            h@ == hay@,
            n@ == needle@,
            forall|k: int| 0 <= k < at ==> !occurs_at(hay@, needle@, k),
        decreases last - at,
    {
        if matches_at(&h, &n, at) {
            return true;
        }
        at = at + 1;
    }
    matches_at(&h, &n, last)
}

/// Whether `s` begins with `prefix`.
pub fn starts_with_text(s: &str, prefix: &str) -> (r: bool)
    ensures
        r == begins_with(s@, prefix@),
{
    matches_at(&chars_of(s), &chars_of(prefix), 0)
}

/// Whether `s` ends in `suffix`.
pub fn ends_with_text(s: &str, suffix: &str) -> (r: bool)
    ensures
        r == ends_in(s@, suffix@),
{
    let h = chars_of(s);
    let n = chars_of(suffix);
    n.len() <= h.len() && matches_at(&h, &n, h.len() - n.len())
}

/// `hay` with every occurrence of `needle` taken out.
pub fn remove_text(hay: &str, needle: &str) -> (r: String)
    ensures
        r@ == without(hay@, needle@),
{
    let h = chars_of(hay);
    let n = chars_of(needle);
    let mut out = String::new();
    if n.len() == 0 {
        return hay.to_owned();
    }
    let mut at: usize = 0;
    assert(hay@.skip(0) == hay@);
    assert(out@ + without(hay@, needle@) == without(hay@, needle@));
    while at < h.len()
        invariant
            at <= h@.len(),
            h@ == hay@,
            n@ == needle@,
            n@.len() > 0,
            out@ + without(hay@.skip(at as int), needle@) == without(hay@, needle@),
        decreases h@.len() - at,
    {
        let ghost rest = hay@.skip(at as int);
        let ghost before = out@;
        if matches_at(&h, &n, at) {
            assert(rest.subrange(0, n@.len() as int) == hay@.subrange(at as int, at + n@.len()));
            assert(occurs_at(rest, needle@, 0));
            assert(rest.skip(n@.len() as int) == hay@.skip(at + n@.len()));
            at = at + n.len();
        } else {
            assert(rest.len() >= n@.len() ==> rest.subrange(0, n@.len() as int) == hay@.subrange(
                at as int,
                at + n@.len(),
            ));
            assert(!occurs_at(rest, needle@, 0));
            assert(rest.drop_first() == hay@.skip(at + 1));
            out.push(h[at]);
            assert(out@ + without(hay@.skip(at + 1), needle@) == before + (seq![rest.first()]
                + without(rest.drop_first(), needle@)));
            at = at + 1;
        }
    }
    assert(hay@.skip(h@.len() as int) == Seq::<char>::empty());
    assert(out@ == without(hay@, needle@));
    out
}

/// Whether `a` comes before `b` in the order of texts.
pub fn text_less(a: &str, b: &str) -> (r: bool)
    ensures
        r == text_before(a@, b@),
{
    let x = a.as_bytes();
    let y = b.as_bytes();
    let mut i: usize = 0;
    assert(x@.skip(0) == x@);
    assert(y@.skip(0) == y@);
    while i < x.len() && i < y.len() && x[i] == y[i]
        invariant
            i <= x@.len(),
            i <= y@.len(),
            x@ == encode_utf8(a@),
            y@ == encode_utf8(b@),
            text_before(a@, b@) == bytes_before(x@.skip(i as int), y@.skip(i as int)),
        decreases x@.len() - i,
    {
        assert(x@.skip(i as int).drop_first() == x@.skip(i + 1));
        assert(y@.skip(i as int).drop_first() == y@.skip(i + 1));
        i = i + 1;
    }
    if i >= y.len() {
        false
    } else if i >= x.len() {
        true
    } else {
        x[i] < y[i]
    }
}

/// The elements of a comma-separated list: trimmed, in small ASCII letters, the empty
/// ones left out.
pub fn normalized_list(raw: &str) -> (r: Vec<String>)
    ensures
        views(r@) == normalized(pieces(raw@, ',')),
{
    let chars = chars_of(raw);
    let mut out: Vec<String> = Vec::new();
    let mut from: usize = 0;
    let mut at: usize = 0;
    assert(raw@.take(0) == Seq::<char>::empty());
    assert(raw@.subrange(0, 0) == Seq::<char>::empty());
    assert(pieces(raw@.take(0), ',').drop_last() == Seq::<Seq<char>>::empty());
    assert(views(out@) == Seq::<Seq<char>>::empty());
    while at < chars.len()
        invariant
            from <= at <= chars@.len(),
            chars@ == raw@,
            pieces(raw@.take(at as int), ',').len() > 0,
            pieces(raw@.take(at as int), ',').last() == raw@.subrange(from as int, at as int),
            views(out@) == normalized(pieces(raw@.take(at as int), ',').drop_last()),
        decreases chars@.len() - at,
    {
        let ghost before = pieces(raw@.take(at as int), ',');
        assert(raw@.take(at + 1).drop_last() == raw@.take(at as int));
        if chars[at] == ',' {
            push_normalized(&mut out, &string_of(&chars, from, at));
            assert(before.push(Seq::empty()).drop_last() == before);
            from = at + 1;
            assert(raw@.subrange(from as int, from as int) == Seq::<char>::empty());
        } else {
            assert(raw@.subrange(from as int, at + 1) == raw@.subrange(from as int, at as int).push(
                raw@[at as int],
            ));
            assert(before.drop_last().push(before.last().push(raw@[at as int])).drop_last()
                == before.drop_last());
        }
        at = at + 1;
    }
    assert(raw@.take(at as int) == raw@);
    push_normalized(&mut out, &string_of(&chars, from, at));
    out
}

/// Adds a list element: trimmed, in small ASCII letters, left out where it is empty.
fn push_normalized(list: &mut Vec<String>, piece: &str)
    ensures
        views(final(list)@) == (if lowered(trimmed(piece@)).len() == 0 {
            views(old(list)@)
        } else {
            views(old(list)@).push(lowered(trimmed(piece@)))
        }),
{
    let item = lower_text(trim_text(piece).as_str());
    if !item.as_str().is_empty() {
        list.push(item);
        assert(views(list@) =~= views(old(list)@).push(item@));
    }
}

pub proof fn lemma_trimmed_ends(s: Seq<char>)
    ensures
        trimmed(s).len() > 0 ==> !white_space(trimmed(s).first()) && !white_space(trimmed(s).last()),
{
    lemma_trimmed_start(s);
    lemma_trimmed_end(trimmed_start(s));
}

proof fn lemma_trimmed_start(s: Seq<char>)
    ensures
        trimmed_start(s).len() > 0 ==> !white_space(trimmed_start(s).first()),
    decreases s.len(),
{
    if s.len() > 0 && white_space(s.first()) {
        lemma_trimmed_start(s.drop_first());
    }
}

proof fn lemma_trimmed_end(s: Seq<char>)
    ensures
        trimmed_end(s).len() > 0 ==> trimmed_end(s).first() == s.first() && !white_space(
            trimmed_end(s).last(),
        ),
    decreases s.len(),
{
    if s.len() > 0 && white_space(s.last()) {
        lemma_trimmed_end(s.drop_last());
    }
}

/// What is trimmed stays as it is.
pub proof fn lemma_trimmed_twice(s: Seq<char>)
    ensures
        trimmed(trimmed(s)) == trimmed(s),
{
    lemma_trimmed_ends(s);
}

/// Trimming the front and writing in small letters can be done in either order.
pub proof fn lemma_trimmed_start_lowered(s: Seq<char>)
    ensures
        lowered(trimmed_start(s)) == trimmed_start(lowered(s)),
    decreases s.len(),
{
    if s.len() > 0 && white_space(s.first()) {
        lemma_trimmed_start_lowered(s.drop_first());
        assert(lowered(s).drop_first() == lowered(s.drop_first()));
    }
}

/// Trimming and writing in capitals can be done in either order.
pub proof fn lemma_trimmed_uppered(s: Seq<char>)
    ensures
        uppered(trimmed(s)) == trimmed(uppered(s)),
{
    lemma_trimmed_start_uppered(s);
    lemma_trimmed_end_uppered(trimmed_start(s));
}

proof fn lemma_trimmed_start_uppered(s: Seq<char>)
    ensures
        uppered(trimmed_start(s)) == trimmed_start(uppered(s)),
    decreases s.len(),
{
    if s.len() > 0 && white_space(s.first()) {
        lemma_trimmed_start_uppered(s.drop_first());
        assert(uppered(s).drop_first() == uppered(s.drop_first()));
    }
}

proof fn lemma_trimmed_end_uppered(s: Seq<char>)
    ensures
        uppered(trimmed_end(s)) == trimmed_end(uppered(s)),
    decreases s.len(),
{
    if s.len() > 0 && white_space(s.last()) {
        lemma_trimmed_end_uppered(s.drop_last());
        assert(uppered(s).drop_last() == uppered(s.drop_last()));
    }
}

/// Taking out what does not occur changes nothing.
pub proof fn lemma_without_absent(hay: Seq<char>, needle: Seq<char>)
    requires
        !occurs(hay, needle),
    ensures
        without(hay, needle) == hay,
    decreases hay.len(),
{
    if needle.len() > 0 && hay.len() > 0 {
        assert(!occurs_at(hay, needle, 0));
        let rest = hay.drop_first();
        assert forall|at: int| !occurs_at(rest, needle, at) by {
            if occurs_at(rest, needle, at) {
                assert(hay.subrange(at + 1, at + 1 + needle.len()) == rest.subrange(
                    at,
                    at + needle.len(),
                ));
                assert(occurs_at(hay, needle, at + 1));
            }
        }
        lemma_without_absent(rest, needle);
        assert(seq![hay.first()] + rest == hay);
    }
}

/// White space is what Unicode says it is.
pub proof fn white_space_is_blank(c: char)
    ensures
        white_space(c) == plain::is_blank(c),
{
}

/// Trimming takes exactly the blanks off both ends.
pub proof fn trimming_leaves_the_core(s: Seq<char>)
    ensures
        plain::is_core(s, trimmed(s)),
        forall|core: Seq<char>| plain::is_core(s, core) ==> core == trimmed(s),
{
    let before = lemma_trimmed_start_is_skip(s);
    let front = trimmed_start(s);
    let left = lemma_trimmed_end_is_take(front);
    let upto = before + left;
    assert(trimmed(s) == s.subrange(before, upto));
    lemma_trimmed_ends(s);
    assert forall|i: int| upto <= i < s.len() implies plain::is_blank(#[trigger] s[i]) by {
        assert(front[i - before] == s[i]);
    }
    assert(plain::core_between(s, trimmed(s), before, upto));
    assert forall|core: Seq<char>| plain::is_core(s, core) implies core == trimmed(s) by {
        let (a, b) = choose|a: int, b: int| plain::core_between(s, core, a, b);
        if a < b && before < upto {
            assert(a == before) by {
                if a < before {
                    assert(plain::is_blank(s[a]));
                }
                if before < a {
                    assert(plain::is_blank(s[before]));
                }
            }
            assert(b == upto) by {
                if b < upto {
                    assert(plain::is_blank(s[upto - 1]));
                }
                if upto < b {
                    assert(plain::is_blank(s[b - 1]));
                }
            }
        } else if a < b {
            assert(plain::is_blank(s[a]));
        } else if before < upto {
            assert(plain::is_blank(s[before]));
        } else {
            assert(core =~= trimmed(s));
        }
    }
}

/// Trimming the front takes exactly the blanks off the front.
pub proof fn trimming_the_front_leaves_the_rest(s: Seq<char>)
    ensures
        exists|before: int| #[trigger]
            s.skip(before) == trimmed_start(s) && 0 <= before <= s.len() && (forall|i: int|
                0 <= i < before ==> plain::is_blank(#[trigger] s[i])) && (before < s.len()
                ==> !plain::is_blank(s[before])),
{
    let before = lemma_trimmed_start_is_skip(s);
    assert(s.skip(before) == trimmed_start(s));
}

proof fn lemma_trimmed_start_is_skip(s: Seq<char>) -> (before: int)
    ensures
        0 <= before <= s.len(),
        trimmed_start(s) == s.skip(before),
        forall|i: int| 0 <= i < before ==> plain::is_blank(#[trigger] s[i]),
        before < s.len() ==> !plain::is_blank(s[before]),
    decreases s.len(),
{
    if s.len() > 0 && white_space(s.first()) {
        let rest = lemma_trimmed_start_is_skip(s.drop_first());
        assert(s.drop_first().skip(rest) == s.skip(rest + 1));
        assert forall|i: int| 0 <= i < rest + 1 implies plain::is_blank(#[trigger] s[i]) by {
            if i > 0 {
                assert(s.drop_first()[i - 1] == s[i]);
            }
        }
        rest + 1
    } else {
        assert(s.skip(0) == s);
        0
    }
}

proof fn lemma_trimmed_end_is_take(s: Seq<char>) -> (upto: int)
    ensures
        0 <= upto <= s.len(),
        trimmed_end(s) == s.take(upto),
        forall|i: int| upto <= i < s.len() ==> plain::is_blank(#[trigger] s[i]),
        upto > 0 ==> !plain::is_blank(s[upto - 1]),
    decreases s.len(),
{
    if s.len() > 0 && white_space(s.last()) {
        let front = s.drop_last();
        let upto = lemma_trimmed_end_is_take(front);
        assert(front.take(upto) == s.take(upto));
        assert forall|i: int| upto <= i < s.len() implies plain::is_blank(#[trigger] s[i]) by {
            if i < front.len() {
                assert(front[i] == s[i]);
            }
        }
        upto
    } else {
        assert(s.take(s.len() as int) == s);
        s.len() as int
    }
}

/// Small letters: ASCII capitals become small, and every other character stays.
pub proof fn only_capitals_become_small(s: Seq<char>)
    ensures
        lowered(s) == plain::small(s),
{
    assert(lowered(s) =~= plain::small(s));
}

/// Capitals: small ASCII letters become capitals, and every other character stays.
pub proof fn only_small_letters_become_capitals(s: Seq<char>)
    ensures
        uppered(s).len() == s.len(),
        forall|i: int| 0 <= i < s.len() ==> {
            let c = #[trigger] s[i];
            uppered(s)[i] == if 'a' <= c <= 'z' {
                ((c as u32) - 32) as char
            } else {
                c
            }
        },
{
}

/// A text occurs where its characters stand one after the other.
pub proof fn texts_occur_character_by_character(hay: Seq<char>, needle: Seq<char>)
    ensures
        occurs(hay, needle) == plain::stands_in(hay, needle),
        begins_with(hay, needle) == plain::starts(hay, needle),
        ends_in(hay, needle) == plain::ends(hay, needle),
        forall|at: int| occurs_at(hay, needle, at) == #[trigger] plain::stands_at(hay, needle, at),
{
    assert forall|at: int| occurs_at(hay, needle, at) == #[trigger] plain::stands_at(
        hay,
        needle,
        at,
    ) by {
        if occurs_at(hay, needle, at) {
            let part = hay.subrange(at, at + needle.len());
            assert forall|j: int| 0 <= j < needle.len() implies #[trigger] needle[j] == hay[at
                + j] by {
                assert(part[j] == hay[at + j]);
            }
        }
        if plain::stands_at(hay, needle, at) {
            assert(hay.subrange(at, at + needle.len()) =~= needle);
        }
    }
    if occurs(hay, needle) {
        let at = choose|at: int| occurs_at(hay, needle, at);
        assert(plain::stands_at(hay, needle, at));
    }
    if plain::stands_in(hay, needle) {
        let at = choose|at: int| plain::stands_at(hay, needle, at);
        assert(occurs_at(hay, needle, at));
    }
}

/// Where a text first stands it is taken out, and what is before it stays as it is; the
/// rest is gone through in the same way.
pub proof fn first_occurrence_is_taken_out(
    before: Seq<char>,
    needle: Seq<char>,
    rest: Seq<char>,
)
    requires
        needle.len() > 0,
        forall|at: int|
            0 <= at < before.len() ==> !#[trigger] plain::stands_at(
                before + needle + rest,
                needle,
                at,
            ),
    ensures
        without(before + needle + rest, needle) == before + without(rest, needle),
    decreases before.len(),
{
    let hay = before + needle + rest;
    if before.len() == 0 {
        assert(hay.subrange(0, needle.len() as int) =~= needle);
        assert(hay.skip(needle.len() as int) =~= rest);
        assert(before + without(rest, needle) =~= without(rest, needle));
    } else {
        assert(!occurs_at(hay, needle, 0)) by {
            assert(!plain::stands_at(hay, needle, 0));
            texts_occur_character_by_character(hay, needle);
        }
        let front = before.drop_first();
        assert(hay.drop_first() =~= front + needle + rest);
        assert forall|at: int| 0 <= at < front.len() implies !#[trigger] plain::stands_at(
            front + needle + rest,
            needle,
            at,
        ) by {
            if plain::stands_at(front + needle + rest, needle, at) {
                lemma_stands_further(hay, needle, at);
                assert(!plain::stands_at(hay, needle, at + 1));
            }
        }
        first_occurrence_is_taken_out(front, needle, rest);
        assert(without(hay, needle) == seq![hay.first()] + without(hay.drop_first(), needle));
        assert(seq![hay.first()] + (front + without(rest, needle)) =~= before + without(
            rest,
            needle,
        ));
    }
}

/// What stands behind the first character stands one further in the whole.
proof fn lemma_stands_further(text: Seq<char>, part: Seq<char>, at: int)
    requires
        text.len() > 0,
        plain::stands_at(text.drop_first(), part, at),
    ensures
        plain::stands_at(text, part, at + 1),
{
    let tail = text.drop_first();
    assert forall|j: int| 0 <= j < part.len() implies #[trigger] part[j] == text[at + 1 + j] by {
        assert(part[j] == tail[at + j]);
    }
}

/// Where a text does not stand, nothing is taken out.
pub proof fn absent_texts_are_not_taken_out(hay: Seq<char>, needle: Seq<char>)
    requires
        !plain::stands_in(hay, needle),
    ensures
        without(hay, needle) == hay,
{
    texts_occur_character_by_character(hay, needle);
    lemma_without_absent(hay, needle);
}

/// A list without a comma has one element: its text, trimmed and in small letters, if
/// anything is left of it.
pub proof fn single_elements_are_normalized(raw: Seq<char>, core: Seq<char>)
    requires
        forall|i: int| 0 <= i < raw.len() ==> #[trigger] raw[i] != ',',
        plain::is_core(raw, core),
    ensures
        normalized(pieces(raw, ',')) == if core.len() > 0 {
            seq![plain::small(core)]
        } else {
            Seq::empty()
        },
{
    lemma_one_piece(raw);
    trimming_leaves_the_core(raw);
    only_capitals_become_small(core);
    let list = seq![raw];
    assert(list.drop_last() == Seq::<Seq<char>>::empty());
    assert(normalized(list.drop_last()) == Seq::<Seq<char>>::empty());
    assert(normalized(list) =~= if core.len() > 0 {
        seq![plain::small(core)]
    } else {
        Seq::empty()
    });
}

proof fn lemma_one_piece(raw: Seq<char>)
    requires
        forall|i: int| 0 <= i < raw.len() ==> #[trigger] raw[i] != ',',
    ensures
        pieces(raw, ',') == seq![raw],
    decreases raw.len(),
{
    if raw.len() > 0 {
        let front = raw.drop_last();
        assert forall|i: int| 0 <= i < front.len() implies #[trigger] front[i] != ',' by {
            assert(front[i] == raw[i]);
        }
        lemma_one_piece(front);
        assert(raw[raw.len() - 1] == raw.last());
        assert(front.push(raw.last()) == raw);
        assert(pieces(raw, ',') =~= seq![raw]);
    } else {
        assert(raw == Seq::<char>::empty());
    }
}

/// The elements of a list are those before a comma and those behind it, in this order.
pub proof fn lists_divide_at_commas(left: Seq<char>, right: Seq<char>)
    ensures
        normalized(pieces(left + seq![','] + right, ',')) == normalized(pieces(left, ','))
            + normalized(pieces(right, ',')),
{
    lemma_pieces_divide(left, right);
    lemma_normalized_concat(pieces(left, ','), pieces(right, ','));
}

proof fn lemma_pieces_divide(left: Seq<char>, right: Seq<char>)
    ensures
        pieces(left + seq![','] + right, ',') == pieces(left, ',') + pieces(right, ','),
        pieces(right, ',').len() > 0,
    decreases right.len(),
{
    let all = left + seq![','] + right;
    if right.len() == 0 {
        assert(all.drop_last() == left);
        assert(all.last() == ',');
        assert(pieces(right, ',') == seq![Seq::<char>::empty()]);
        assert(pieces(all, ',') =~= pieces(left, ',') + pieces(right, ','));
    } else {
        let front = right.drop_last();
        lemma_pieces_divide(left, front);
        assert(all.drop_last() == left + seq![','] + front);
        assert(all.last() == right.last());
        assert(pieces(all, ',') =~= pieces(left, ',') + pieces(right, ','));
    }
}

proof fn lemma_normalized_concat(a: Seq<Seq<char>>, b: Seq<Seq<char>>)
    ensures
        normalized(a + b) == normalized(a) + normalized(b),
    decreases b.len(),
{
    if b.len() == 0 {
        assert(a + b == a);
        assert(normalized(b) == Seq::<Seq<char>>::empty());
        assert(normalized(a) + normalized(b) == normalized(a));
    } else {
        lemma_normalized_concat(a, b.drop_last());
        assert((a + b).drop_last() == a + b.drop_last());
        assert((a + b).last() == b.last());
        assert(normalized(a + b) =~= normalized(a) + normalized(b));
    }
}

/// Texts are ordered by the first byte in which they differ.
pub proof fn texts_are_ordered_by_their_bytes(a: Seq<char>, b: Seq<char>)
    ensures
        text_before(a, b) == plain::comes_before(encode_utf8(a), encode_utf8(b)),
{
    lemma_bytes_before(encode_utf8(a), encode_utf8(b));
}

proof fn lemma_bytes_before(a: Seq<u8>, b: Seq<u8>)
    ensures
        bytes_before(a, b) == plain::comes_before(a, b),
    decreases a.len(),
{
    if b.len() == 0 {
    } else if a.len() == 0 {
        assert(plain::differ_first_at(a, b, 0));
    } else if a.first() != b.first() {
        if a.first() < b.first() {
            assert(plain::differ_first_at(a, b, 0));
        }
        if plain::comes_before(a, b) {
            let k = choose|k: int| plain::differ_first_at(a, b, k);
            if k > 0 {
                assert(a[0] == b[0]);
            }
        }
    } else {
        let x = a.drop_first();
        let y = b.drop_first();
        lemma_bytes_before(x, y);
        if plain::comes_before(x, y) {
            let k = choose|k: int| plain::differ_first_at(x, y, k);
            assert forall|i: int| 0 <= i < k + 1 implies #[trigger] a[i] == b[i] by {
                if i > 0 {
                    assert(x[i - 1] == y[i - 1]);
                }
            }
            assert(plain::differ_first_at(a, b, k + 1));
        }
        if plain::comes_before(a, b) {
            let k = choose|k: int| plain::differ_first_at(a, b, k);
            assert forall|i: int| 0 <= i < k - 1 implies #[trigger] x[i] == y[i] by {
                assert(a[i + 1] == b[i + 1]);
            }
            assert(plain::differ_first_at(x, y, k - 1));
        }
    }
}

/// The views of a list are those of its strings, one for one.
pub proof fn views_are_one_for_one(list: Seq<String>)
    ensures
        views(list).len() == list.len(),
        forall|i: int| 0 <= i < list.len() ==> views(list)[i] == (#[trigger] list[i])@,
{
}

} // verus!
