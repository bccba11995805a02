//! Small readers of text: trimming, letter case, prefixes and numbers.

use vstd::prelude::*;
use vstd::string::*;

use crate::text::{chars_of, owned};

verus! {

/// Characters with the Unicode property `White_Space`.
pub open spec fn space(c: char) -> bool {
    '\u{9}' <= c <= '\u{d}' || c == '\u{20}' || c == '\u{85}' || c == '\u{a0}' || c == '\u{1680}'
        || '\u{2000}' <= c <= '\u{200a}' || c == '\u{2028}' || c == '\u{2029}' || c == '\u{202f}'
        || c == '\u{205f}' || c == '\u{3000}'
}

pub fn is_space(c: char) -> (yes: bool)
    ensures
        yes == space(c),
{
    ('\u{9}' <= c && c <= '\u{d}') || c == '\u{20}' || c == '\u{85}' || c == '\u{a0}' || c
        == '\u{1680}' || ('\u{2000}' <= c && c <= '\u{200a}') || c == '\u{2028}' || c == '\u{2029}'
        || c == '\u{202f}' || c == '\u{205f}' || c == '\u{3000}'
}

pub open spec fn digit_char(c: char) -> bool {
    '0' <= c <= '9'
}

pub open spec fn letter_or_digit(c: char) -> bool {
    digit_char(c) || 'a' <= c <= 'z' || 'A' <= c <= 'Z'
}

pub fn is_letter_or_digit(c: char) -> (yes: bool)
    ensures
        yes == letter_or_digit(c),
{
    ('0' <= c && c <= '9') || ('a' <= c && c <= 'z') || ('A' <= c && c <= 'Z')
}

/// A text from its characters.
pub fn text_of(chars: &Vec<char>, from: usize, to: usize) -> (s: String)
    requires
        from <= to <= chars.len(),
    ensures
        s@ == chars@.subrange(from as int, to as int),
{
    let mut s = owned("");
    proof {
        reveal_strlit("");
    }
    let mut i: usize = from;
    assert(s@ =~= chars@.subrange(from as int, from as int));
    while i < to
        invariant
            from <= i <= to <= chars.len(),
            s@ == chars@.subrange(from as int, i as int),
        decreases to - i,
    {
        s.push(chars[i]);
        i += 1;
        assert(s@ =~= chars@.subrange(from as int, i as int));
    }
    s
}

/// How many characters at the start are white space.
pub open spec fn leading(s: Seq<char>) -> int
    decreases s.len(),
{
    if s.len() == 0 || !space(s[0]) {
        0
    } else {
        1 + leading(s.skip(1))
    }
}

/// A text without white space at its end.
pub open spec fn trimmed_end(s: Seq<char>) -> Seq<char>
    decreases s.len(),
{
    if s.len() == 0 || !space(s.last()) {
        s
    } else {
        trimmed_end(s.drop_last())
    }
}

/// A text without white space around it.
pub open spec fn trimmed(s: Seq<char>) -> Seq<char> {
    trimmed_end(s.skip(leading(s)))
}

proof fn lemma_leading(s: Seq<char>, n: int)
    requires
        0 <= n <= s.len(),
        forall|j: int| 0 <= j < n ==> space(#[trigger] s[j]),
        n == s.len() || !space(s[n]),
    ensures
        leading(s) == n,
    decreases s.len(),
{
    if n > 0 {
        assert(s.skip(1).len() == s.len() - 1);
        assert forall|j: int| 0 <= j < n - 1 implies space(#[trigger] s.skip(1)[j]) by {
            assert(s.skip(1)[j] == s[j + 1]);
        }
        lemma_leading(s.skip(1), n - 1);
    }
}

pub fn trim(s: &str) -> (rest: String)
    ensures
        rest@ == trimmed(s@),
{
    let chars = chars_of(s);
    let mut from: usize = 0;
    while from < chars.len() && is_space(chars[from])
        invariant
            from <= chars.len(),
            forall|j: int| 0 <= j < from ==> space(#[trigger] chars@[j]),
        decreases chars.len() - from,
    {
        from += 1;
    }
    proof {
        lemma_leading(chars@, from as int);
    }
    let mut to: usize = chars.len();
    assert(chars@.subrange(from as int, to as int) =~= chars@.skip(from as int));
    while to > from && is_space(chars[to - 1])
        invariant
            from <= to <= chars.len(),
            trimmed_end(chars@.skip(from as int)) == trimmed_end(
                chars@.subrange(from as int, to as int),
            ),
        decreases to,
    {
        assert(chars@.subrange(from as int, to as int).last() == chars@[to - 1]);
        assert(chars@.subrange(from as int, to as int).drop_last() =~= chars@.subrange(
            from as int,
            to - 1,
        ));
        to -= 1;
    }
    assert(to > from ==> chars@.subrange(from as int, to as int).last() == chars@[to - 1]);
    text_of(&chars, from, to)
}

/// An ASCII capital as its small letter, any other character as it is.
pub open spec fn lower_char(c: char) -> char {
    if 'A' <= c <= 'Z' {
        (c as u32 + 32) as char
    } else {
        c
    }
}

pub open spec fn lowered(s: Seq<char>) -> Seq<char> {
    Seq::new(s.len(), |i: int| lower_char(s[i]))
}

fn small_letter(c: char) -> (lower: char)
    ensures
        lower == lower_char(c),
{
    if 'A' <= c && c <= 'Z' {
        let n: u8 = c as u8 + 32;
        n as char
    } else {
        c
    }
}

pub fn to_lower(s: &str) -> (lower: String)
    ensures
        lower@ == lowered(s@),
{
    let chars = chars_of(s);
    let mut lower = owned("");
    proof {
        reveal_strlit("");
    }
    let mut i: usize = 0;
    while i < chars.len()
        invariant
            i <= chars.len(),
            chars@ == s@,
            lower@ == lowered(s@).take(i as int),
        decreases chars.len() - i,
    {
        lower.push(small_letter(chars[i]));
        i += 1;
        assert(lower@ =~= lowered(s@).take(i as int));
    }
    assert(lower@ =~= lowered(s@));
    lower
}

pub open spec fn begins(s: Seq<char>, prefix: Seq<char>) -> bool {
    s.len() >= prefix.len() && s.take(prefix.len() as int) == prefix
}

pub open spec fn ends(s: Seq<char>, suffix: Seq<char>) -> bool {
    s.len() >= suffix.len() && s.skip(s.len() - suffix.len()) == suffix
}

/// What follows a prefix.
pub fn after_prefix(s: &str, prefix: &str) -> (rest: Option<String>)
    ensures
        (match rest {
            Some(r) => begins(s@, prefix@) && r@ == s@.skip(prefix@.len() as int),
            None => !begins(s@, prefix@),
        }),
{
    let chars = chars_of(s);
    let head = chars_of(prefix);
    if chars.len() < head.len() {
        return None;
    }
    let mut i: usize = 0;
    while i < head.len()
        invariant
            i <= head.len() <= chars.len(),
            chars@ == s@,
            head@ == prefix@,
            forall|j: int| 0 <= j < i ==> chars@[j] == head@[j],
        decreases head.len() - i,
    {
        if chars[i] != head[i] {
            assert(s@.take(prefix@.len() as int)[i as int] != prefix@[i as int]);
            return None;
        }
        i += 1;
    }
    assert(s@.take(prefix@.len() as int) =~= prefix@);
    let rest = text_of(&chars, head.len(), chars.len());
    assert(rest@ =~= s@.skip(prefix@.len() as int));
    Some(rest)
}

/// What precedes a suffix.
pub fn before_suffix(s: &str, suffix: &str) -> (rest: Option<String>)
    ensures
        (match rest {
            Some(r) => ends(s@, suffix@) && r@ == s@.take(s@.len() - suffix@.len()),
            None => !ends(s@, suffix@),
        }),
{
    let chars = chars_of(s);
    let tail = chars_of(suffix);
    if chars.len() < tail.len() {
        return None;
    }
    let cut: usize = chars.len() - tail.len();
    let mut i: usize = 0;
    while i < tail.len()
        invariant
            i <= tail.len() <= chars.len(),
            cut == chars.len() - tail.len(),
            chars@ == s@,
            tail@ == suffix@,
            forall|j: int| 0 <= j < i ==> chars@[cut + j] == tail@[j],
        decreases tail.len() - i,
    {
        if chars[cut + i] != tail[i] {
            assert(s@.skip(cut as int)[i as int] != suffix@[i as int]);
            return None;
        }
        i += 1;
    }
    assert(s@.skip(cut as int) =~= suffix@);
    let rest = text_of(&chars, 0, cut);
    assert(rest@ =~= s@.take(cut as int));
    Some(rest)
}

/// The value of decimal digits, most significant first; none for other text.
pub open spec fn digits_value(s: Seq<char>) -> Option<nat>
    decreases s.len(),
{
    if s.len() == 0 {
        Some(0)
    } else if !digit_char(s.last()) {
        None
    } else {
        match digits_value(s.drop_last()) {
            Some(n) => Some((10 * n + (s.last() as int - 48)) as nat),
            None => None,
        }
    }
}

/// A number in decimal, with an optional plus sign.
pub open spec fn number(s: Seq<char>) -> Option<nat> {
    if s.len() > 0 && s[0] == '+' {
        if s.len() == 1 {
            None
        } else {
            digits_value(s.skip(1))
        }
    } else if s.len() == 0 {
        None
    } else {
        digits_value(s)
    }
}

/// A number no larger than a bound.
pub open spec fn bounded_number(s: Seq<char>, max: nat) -> Option<nat> {
    match number(s) {
        Some(n) => if n <= max {
            Some(n)
        } else {
            None
        },
        None => None,
    }
}

/// Longer runs of digits never stand for less.
proof fn lemma_digits_grow(s: Seq<char>, n: int)
    requires
        0 <= n <= s.len(),
        digits_value(s) is Some,
    ensures
        digits_value(s.take(n)) is Some,
        digits_value(s.take(n))->0 <= digits_value(s)->0,
    decreases s.len() - n,
{
    if n < s.len() {
        assert(s.drop_last().take(n) =~= s.take(n));
        if n < s.len() - 1 {
            lemma_digits_grow(s.drop_last(), n);
        } else {
            assert(s.take(n) =~= s.drop_last());
        }
    } else {
        assert(s.take(n) =~= s);
    }
}

proof fn lemma_digits_prefix_none(s: Seq<char>, n: int)
    requires
        0 <= n <= s.len(),
        digits_value(s.take(n)) is None,
    ensures
        digits_value(s) is None,
{
    if digits_value(s) is Some {
        lemma_digits_grow(s, n);
    }
}

pub fn parse_number(s: &str, max: u64) -> (value: Option<u64>)
    ensures
        (match value {
            Some(n) => bounded_number(s@, max as nat) == Some(n as nat),
            None => bounded_number(s@, max as nat) is None,
        }),
{
    let chars = chars_of(s);
    if chars.len() == 0 {
        return None;
    }
    let from: usize = if chars[0] == '+' {
        1
    } else {
        0
    };
    if from == chars.len() {
        return None;
    }
    let ghost body = chars@.skip(from as int);
    assert(from == 0 ==> body =~= s@);
    let mut value: u64 = 0;
    let mut i: usize = from;
    assert(body.take(0) =~= Seq::<char>::empty());
    while i < chars.len()
        invariant
            from <= i <= chars.len(),
            chars@ == s@,
            chars.len() > 0,
            from < chars.len(),
            from == if chars@[0] == '+' {
                1int
            } else {
                0int
            },
            body == chars@.skip(from as int),
            from == 0 ==> body == s@,
            digits_value(body.take(i - from)) == Some(value as nat),
        decreases chars.len() - i,
    {
        let c = chars[i];
        assert(body.take(i + 1 - from).drop_last() =~= body.take(i - from));
        assert(body.take(i + 1 - from).last() == c);
        if !('0' <= c && c <= '9') {
            proof {
                lemma_digits_prefix_none(body, i + 1 - from);
            }
            return None;
        }
        let d: u64 = c as u64 - 48;
        if value > (u64::MAX - d) / 10 {
            proof {
                assert(10 * value + d > u64::MAX);
                if digits_value(body) is Some {
                    lemma_digits_grow(body, i + 1 - from);
                }
            }
            return None;
        }
        value = value * 10 + d;
        i += 1;
    }
    assert(body.take(i - from) =~= body);
    if value <= max {
        Some(value)
    } else {
        None
    }
}

/// A text with every occurrence of one character replaced.
pub open spec fn replaced(s: Seq<char>, from: char, to: Seq<char>) -> Seq<char>
    decreases s.len(),
{
    if s.len() == 0 {
        s
    } else {
        replaced(s.drop_last(), from, to) + if s.last() == from {
            to
        } else {
            seq![s.last()]
        }
    }
}

pub fn replace_char(s: &str, from: char, to: &str) -> (text: String)
    ensures
        text@ == replaced(s@, from, to@),
{
    let chars = chars_of(s);
    let mut text = String::new();
    let mut i: usize = 0;
    assert(s@.take(0) =~= Seq::<char>::empty());
    assert(text@ =~= replaced(s@.take(0), from, to@));
    while i < chars.len()
        invariant
            i <= chars.len(),
            chars@ == s@,
            text@ == replaced(s@.take(i as int), from, to@),
        decreases chars.len() - i,
    {
        let ghost step = s@.take(i + 1);
        let ghost before = text@;
        assert(step.drop_last() =~= s@.take(i as int));
        assert(step.last() == s@[i as int]);
        if chars[i] == from {
            text.append(to);
        } else {
            text.push(chars[i]);
            assert(text@ =~= before + seq![s@[i as int]]);
        }
        i += 1;
    }
    assert(s@.take(i as int) =~= s@);
    text
}

} // verus!
