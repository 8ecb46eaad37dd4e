//! Reading and writing the small texts that configuration, the database and the name
//! service exchange.

use vstd::prelude::*;

verus! {

/// The characters of a text.
pub fn chars_of(text: &str) -> (chars: Vec<char>)
    ensures
        chars@ == text@,
{
    let mut chars: Vec<char> = Vec::new();
    for c in it: text.chars()
        invariant
            it.seq() == text@,
            chars@ =~= it.seq().take(it.index() as int),
    {
        chars.push(c);
    }
    assert(chars@ =~= text@);
    chars
}

// ---------------------------------------------------------------------------
// Trimming
// ---------------------------------------------------------------------------

/// The characters with the Unicode property `White_Space`.
pub open spec fn is_whitespace(c: char) -> bool {
    let u = c as u32;
    ||| 0x09 <= u <= 0x0d
    ||| u == 0x20
    ||| u == 0x85
    ||| u == 0xa0
    ||| u == 0x1680
    ||| 0x2000 <= u <= 0x200a
    ||| u == 0x2028
    ||| u == 0x2029
    ||| u == 0x202f
    ||| u == 0x205f
    ||| u == 0x3000
}

/// A text without the whitespace in front.
pub open spec fn trimmed_start(text: Seq<char>) -> Seq<char>
    decreases text.len(),
{
    if text.len() > 0 && is_whitespace(text[0]) {
        trimmed_start(text.subrange(1, text.len() as int))
    } else {
        text
    }
}

/// A text without the whitespace behind.
pub open spec fn trimmed_end(text: Seq<char>) -> Seq<char>
    decreases text.len(),
{
    if text.len() > 0 && is_whitespace(text.last()) {
        trimmed_end(text.drop_last())
    } else {
        text
    }
}

/// A text without the whitespace around it.
pub open spec fn trimmed(text: Seq<char>) -> Seq<char> {
    trimmed_end(trimmed_start(text))
}

/// Whether a character is whitespace.
pub fn char_is_whitespace(c: char) -> (yes: bool)
    ensures
        yes == is_whitespace(c),
{
    let u: u32 = c as u32;
    (0x09 <= u && u <= 0x0d) || u == 0x20 || u == 0x85 || u == 0xa0 || u == 0x1680 || (0x2000 <= u
        && u <= 0x200a) || u == 0x2028 || u == 0x2029 || u == 0x202f || u == 0x205f || u == 0x3000
}

/// Cut off the whitespace around a text.
pub fn trim(text: &str) -> (inner: &str)
    ensures
        inner@ == trimmed(text@),
{
    let chars: Vec<char> = chars_of(text);
    let n: usize = chars.len();
    let mut from: usize = 0;
    assert(text@.subrange(0, n as int) =~= text@);
    while from < n && char_is_whitespace(chars[from])
        invariant
            from <= n,
            n == chars.len(),
            chars@ == text@,
            trimmed_start(text@) == trimmed_start(text@.subrange(from as int, n as int)),
        decreases n - from,
    {
        assert(text@.subrange(from as int, n as int).subrange(1, n - from) =~= text@.subrange(
            from + 1,
            n as int,
        ));
        from = from + 1;
    }
    let ghost rest = text@.subrange(from as int, n as int);
    assert(trimmed_start(text@) == rest);
    let mut to: usize = n;
    while from < to && char_is_whitespace(chars[to - 1])
        invariant
            from <= to <= n,
            n == chars.len(),
            chars@ == text@,
            trimmed_end(rest) == trimmed_end(text@.subrange(from as int, to as int)),
        decreases to,
    {
        assert(text@.subrange(from as int, to as int).drop_last() =~= text@.subrange(
            from as int,
            to - 1,
        ));
        to = to - 1;
    }
    text.substring_char(from, to)
}

/// A text without the dots behind.
pub open spec fn without_trailing_dots(text: Seq<char>) -> Seq<char>
    decreases text.len(),
{
    if text.len() > 0 && text.last() == '.' {
        without_trailing_dots(text.drop_last())
    } else {
        text
    }
}

/// Cut off the dots behind a text.
pub fn trim_trailing_dots(text: &str) -> (inner: &str)
    ensures
        inner@ == without_trailing_dots(text@),
{
    let chars: Vec<char> = chars_of(text);
    let mut to: usize = chars.len();
    assert(text@.subrange(0, to as int) =~= text@);
    while 0 < to && chars[to - 1] == '.'
        invariant
            to <= chars.len(),
            chars@ == text@,
            without_trailing_dots(text@) == without_trailing_dots(text@.subrange(0, to as int)),
        decreases to,
    {
        assert(text@.subrange(0, to as int).drop_last() =~= text@.subrange(0, to - 1));
        to = to - 1;
    }
    text.substring_char(0, to)
}

// ---------------------------------------------------------------------------
// Searching
// ---------------------------------------------------------------------------

/// `pattern` stands in `text` at `at`.
pub open spec fn stands_at(text: Seq<char>, pattern: Seq<char>, at: int) -> bool {
    0 <= at && at + pattern.len() <= text.len() && text.subrange(at, at + pattern.len()) == pattern
}

/// `pattern` stands somewhere in `text`.
pub open spec fn contains_text(text: Seq<char>, pattern: Seq<char>) -> bool {
    exists|at: int| stands_at(text, pattern, at)
}

/// Whether a pattern stands in a text at a given place.
fn matches_at(text: &Vec<char>, pattern: &Vec<char>, at: usize) -> (yes: bool)
    requires
        at + pattern@.len() <= text@.len(),
    ensures
        yes == stands_at(text@, pattern@, at as int),
{
    let mut i: usize = 0;
    while i < pattern.len()
        invariant
            i <= pattern.len(),
            at + pattern.len() <= text.len(),
            forall|j: int| 0 <= j < i ==> text@[at + j] == pattern@[j],
        decreases pattern.len() - i,
    {
        if text[at + i] != pattern[i] {
            assert(text@.subrange(at as int, at + pattern@.len())[i as int] != pattern@[i as int]);
            return false;
        }
        i = i + 1;
    }
    assert(text@.subrange(at as int, at + pattern@.len()) =~= pattern@);
    true
}

/// Whether a pattern stands somewhere in a text.
pub fn contains(text: &str, pattern: &str) -> (yes: bool)
    ensures
        yes == contains_text(text@, pattern@),
{
    let text_chars: Vec<char> = chars_of(text);
    let pattern_chars: Vec<char> = chars_of(pattern);
    if text_chars.len() < pattern_chars.len() {
        return false;
    }
    let last: usize = text_chars.len() - pattern_chars.len();
    let mut at: usize = 0;
    loop
        invariant
            at <= last,
            last == text_chars.len() - pattern_chars.len(),
            text_chars@ == text@,
            pattern_chars@ == pattern@,
            forall|j: int| 0 <= j < at ==> !stands_at(text@, pattern@, j),
        decreases last - at,
    {
        if matches_at(&text_chars, &pattern_chars, at) {
            return true;
        }
        if at == last {
            return false;
        }
        at = at + 1;
    }
}

// ---------------------------------------------------------------------------
// Letter case
// ---------------------------------------------------------------------------

/// The lower-case form of an ASCII letter, and every other character itself.
pub open spec fn lower(c: char) -> char {
    if 'A' <= c <= 'Z' {
        (c as u32 + 32) as char
    } else {
        c
    }
}

/// A text with its ASCII letters in lower case.
pub open spec fn lowered(text: Seq<char>) -> Seq<char> {
    Seq::new(text.len(), |i: int| lower(text[i]))
}

/// The lower-case ASCII letters, in order.
pub const ALPHABET: &'static str = "abcdefghijklmnopqrstuvwxyz";

/// Write a text with its ASCII letters in lower case.
pub fn to_lower(text: &str) -> (res: String)
    ensures
        res@ == lowered(text@),
{
    let chars: Vec<char> = chars_of(text);
    let mut res: String = String::new();
    let mut i: usize = 0;
    while i < chars.len()
        invariant
            i <= chars.len(),
            chars@ == text@,
            res@ =~= lowered(text@).take(i as int),
        decreases chars.len() - i,
    {
        let c: char = chars[i];
        if 'A' <= c && c <= 'Z' {
            let k: usize = c as usize - 'A' as usize;
            proof {
                reveal_strlit("abcdefghijklmnopqrstuvwxyz");
            }
            let piece: &str = ALPHABET.substring_char(k, k + 1);
            assert(piece@ =~= seq![lower(c)]);
            res.append(piece);
        } else {
            let piece: &str = text.substring_char(i, i + 1);
            assert(piece@ =~= seq![lower(c)]);
            res.append(piece);
        }
        assert(lowered(text@).take(i + 1) =~= lowered(text@).take(i as int).push(lower(c)));
        i = i + 1;
    }
    assert(lowered(text@).take(i as int) =~= lowered(text@));
    res
}

// ---------------------------------------------------------------------------
// Laws
// ---------------------------------------------------------------------------

/// The code points with the Unicode property `White_Space`, one by one.
pub open spec fn white_space_codes() -> Seq<u32> {
    seq![
        0x9u32, 0xa, 0xb, 0xc, 0xd, 0x20, 0x85, 0xa0, 0x1680, 0x2000, 0x2001, 0x2002, 0x2003,
        0x2004, 0x2005, 0x2006, 0x2007, 0x2008, 0x2009, 0x200a, 0x2028, 0x2029, 0x202f, 0x205f,
        0x3000,
    ]
}

/// A character is whitespace just if its code point is one of the twenty-five.
pub proof fn law_whitespace_by_code_point(c: char)
    ensures
        is_whitespace(c) <==> exists|i: int|
            0 <= i < 25 && #[trigger] white_space_codes()[i] == c as u32,
{
    let u = c as u32;
    let w = white_space_codes();
    assert(w.len() == 25);
    if is_whitespace(c) {
        let i: int = if u <= 0x0d {
            u - 0x09
        } else if u == 0x20 {
            5
        } else if u == 0x85 {
            6
        } else if u == 0xa0 {
            7
        } else if u == 0x1680 {
            8
        } else if u <= 0x200a {
            9 + (u - 0x2000)
        } else if u == 0x2028 {
            20
        } else if u == 0x2029 {
            21
        } else if u == 0x202f {
            22
        } else if u == 0x205f {
            23
        } else {
            24
        };
        assert(w[i] == u);
    }
}

/// Trimming takes off the whitespace on both sides and nothing else: of a text between two
/// stretches of whitespace, that text is left if it neither begins nor ends with whitespace.
/// Every text is such a middle with its two stretches.
pub proof fn law_trimmed_is_what_stands_between(
    before: Seq<char>,
    inner: Seq<char>,
    after: Seq<char>,
)
    requires
        forall|i: int| 0 <= i < before.len() ==> is_whitespace(#[trigger] before[i]),
        forall|i: int| 0 <= i < after.len() ==> is_whitespace(#[trigger] after[i]),
        inner.len() > 0 ==> !is_whitespace(inner[0]) && !is_whitespace(inner.last()),
    ensures
        trimmed(before + inner + after) == inner,
{
    lemma_whitespace_in_front_goes(before, inner + after);
    assert(before + inner + after =~= before + (inner + after));
    if inner.len() > 0 {
        assert((inner + after)[0] == inner[0]);
        assert(trimmed_start(inner + after) == inner + after);
    } else {
        assert(inner + after =~= after + Seq::<char>::empty());
        lemma_whitespace_in_front_goes(after, Seq::<char>::empty());
        assert(trimmed_start(inner + after) =~= inner);
        assert(inner + Seq::<char>::empty() =~= inner);
    }
    lemma_whitespace_behind_goes(inner, after);
    lemma_whitespace_behind_goes(inner, Seq::<char>::empty());
    assert(inner + Seq::<char>::empty() =~= inner);
}

/// Whitespace in front of a text is all cut off.
proof fn lemma_whitespace_in_front_goes(before: Seq<char>, rest: Seq<char>)
    requires
        forall|i: int| 0 <= i < before.len() ==> is_whitespace(#[trigger] before[i]),
    ensures
        trimmed_start(before + rest) == trimmed_start(rest),
    decreases before.len(),
{
    if before.len() == 0 {
        assert(before + rest =~= rest);
    } else {
        let fewer = before.subrange(1, before.len() as int);
        assert((before + rest)[0] == before[0]);
        assert((before + rest).subrange(1, (before + rest).len() as int) =~= fewer + rest);
        assert forall|i: int| 0 <= i < fewer.len() implies is_whitespace(#[trigger] fewer[i]) by {
            assert(fewer[i] == before[i + 1]);
        }
        lemma_whitespace_in_front_goes(fewer, rest);
    }
}

/// Whitespace behind a text is all cut off.
proof fn lemma_whitespace_behind_goes(inner: Seq<char>, after: Seq<char>)
    requires
        forall|i: int| 0 <= i < after.len() ==> is_whitespace(#[trigger] after[i]),
        inner.len() > 0 ==> !is_whitespace(inner.last()),
    ensures
        trimmed_end(inner + after) == inner,
    decreases after.len(),
{
    if after.len() == 0 {
        assert(inner + after =~= inner);
    } else {
        assert((inner + after).last() == after.last());
        assert((inner + after).drop_last() =~= inner + after.drop_last());
        lemma_whitespace_behind_goes(inner, after.drop_last());
    }
}

/// The dot is the character with code point 46.
proof fn lemma_dot_code(c: char)
    ensures
        c == '.' <==> c as u32 == 0x2e,
{
}

/// A text with dots behind it is cut to the text, if that does not itself end with a dot:
/// every dot behind goes, and nothing else does.
pub proof fn law_only_trailing_dots_go(name: Seq<char>, dots: Seq<char>)
    requires
        name.len() > 0 ==> name.last() as u32 != 0x2e,
        forall|i: int| 0 <= i < dots.len() ==> (#[trigger] dots[i]) as u32 == 0x2e,
    ensures
        without_trailing_dots(name + dots) == name,
    decreases dots.len(),
{
    if dots.len() == 0 {
        assert(name + dots =~= name);
    } else {
        assert(dots[dots.len() - 1] as u32 == 0x2e);
        lemma_dot_code(dots[dots.len() - 1]);
        assert((name + dots).last() == '.');
        assert((name + dots).drop_last() =~= name + dots.drop_last());
        law_only_trailing_dots_go(name, dots.drop_last());
    }
}

/// Lowering keeps the length, moves the code points 65 to 90 up by 32, and keeps all others.
pub proof fn law_lowered_by_code_point(text: Seq<char>, i: int)
    requires
        0 <= i < text.len(),
    ensures
        lowered(text).len() == text.len(),
        lowered(text)[i] as u32 == if 65 <= text[i] as u32 <= 90 {
            text[i] as u32 + 32
        } else {
            text[i] as u32 as int
        },
{
}

/// A text holds every text that it was put together from, and holds a text only if it can be
/// taken apart into that text and what stands before and behind it.
pub proof fn law_contains_text_by_parts(
    before: Seq<char>,
    pattern: Seq<char>,
    after: Seq<char>,
    text: Seq<char>,
)
    ensures
        contains_text(before + pattern + after, pattern),
        contains_text(text, pattern) ==> exists|b: Seq<char>, a: Seq<char>|
            text == #[trigger] (b + pattern + a),
{
    let whole = before + pattern + after;
    let at = before.len() as int;
    assert(whole.subrange(at, at + pattern.len()) =~= pattern);
    assert(stands_at(whole, pattern, at));
    if contains_text(text, pattern) {
        let k = choose|k: int| stands_at(text, pattern, k);
        let b = text.subrange(0, k);
        let a = text.subrange(k + pattern.len(), text.len() as int);
        let inner = text.subrange(k, k + pattern.len());
        assert(text =~= b + inner + a);
        assert(text == b + pattern + a);
    }
}

/// The functions of this module, on a text that is taken apart: trimming leaves what stands
/// between the whitespace, cutting dots what stands before them, and a search finds a pattern
/// wherever it stands. Lowering goes character by character.
pub proof fn law_functions_on_parts(
    text: &str,
    before: Seq<char>,
    inner: Seq<char>,
    after: Seq<char>,
    trimmed_text: &str,
    undotted: &str,
    pattern: &str,
    found: bool,
    lower_text: String,
    i: int,
)
    requires
        text@ == before + inner + after,
        call_ensures(trim, (text,), trimmed_text),
        call_ensures(trim_trailing_dots, (text,), undotted),
        call_ensures(contains, (text, pattern), found),
        call_ensures(to_lower, (text,), lower_text),
        0 <= i < text@.len(),
    ensures
        (forall|j: int| 0 <= j < before.len() ==> is_whitespace(#[trigger] before[j])) && (forall|
            j: int,
        |
            0 <= j < after.len() ==> is_whitespace(#[trigger] after[j])) && (inner.len() > 0
            ==> !is_whitespace(inner[0]) && !is_whitespace(inner.last())) ==> trimmed_text@
            == inner,
        before.len() == 0 && (forall|j: int|
            0 <= j < after.len() ==> (#[trigger] after[j]) as u32 == 0x2e) && (inner.len() > 0
            ==> inner.last() as u32 != 0x2e) ==> undotted@ == inner,
        inner == pattern@ ==> found,
        found ==> exists|b: Seq<char>, a: Seq<char>| text@ == #[trigger] (b + pattern@ + a),
        lower_text@.len() == text@.len(),
        lower_text@[i] as u32 == if 65 <= text@[i] as u32 <= 90 {
            text@[i] as u32 + 32
        } else {
            text@[i] as u32 as int
        },
{
    if (forall|j: int| 0 <= j < before.len() ==> is_whitespace(#[trigger] before[j])) && (forall|
        j: int,
    |
        0 <= j < after.len() ==> is_whitespace(#[trigger] after[j])) && (inner.len() > 0
        ==> !is_whitespace(inner[0]) && !is_whitespace(inner.last())) {
        law_trimmed_is_what_stands_between(before, inner, after);
    }
    if before.len() == 0 && (forall|j: int|
        0 <= j < after.len() ==> (#[trigger] after[j]) as u32 == 0x2e) && (inner.len() > 0
        ==> inner.last() as u32 != 0x2e) {
        law_only_trailing_dots_go(inner, after);
        assert(text@ =~= inner + after);
    }
    law_contains_text_by_parts(before, pattern@, after, text@);
    law_lowered_by_code_point(text@, i);
}

} // verus!
