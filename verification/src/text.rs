//! Text as machines compare it: order, equality, digits and blanks.

use vstd::prelude::*;
use vstd::string::*;
use vstd::utf8::*;

verus! {

/// `String::push` appends one character.
pub assume_specification[ String::push ](s: &mut String, c: char)
    ensures
        final(s)@ == old(s)@.push(c),
;

/// Byte strings in dictionary order.
pub open spec fn bytes_lt(a: Seq<u8>, b: Seq<u8>) -> bool
    decreases a.len(),
{
    if b.len() == 0 {
        false
    } else if a.len() == 0 {
        true
    } else if a[0] != b[0] {
        a[0] < b[0]
    } else {
        bytes_lt(a.skip(1), b.skip(1))
    }
}

/// Text is ordered by its UTF-8 bytes.
pub open spec fn text_lt(a: Seq<char>, b: Seq<char>) -> bool {
    bytes_lt(encode_utf8(a), encode_utf8(b))
}

pub proof fn lemma_bytes_lt_irreflexive(a: Seq<u8>)
    ensures
        !bytes_lt(a, a),
    decreases a.len(),
{
    if a.len() > 0 {
        lemma_bytes_lt_irreflexive(a.skip(1));
    }
}

pub proof fn lemma_bytes_lt_transitive(a: Seq<u8>, b: Seq<u8>, c: Seq<u8>)
    requires
        bytes_lt(a, b),
        bytes_lt(b, c),
    ensures
        bytes_lt(a, c),
    decreases a.len(),
{
    if a.len() > 0 && b.len() > 0 && c.len() > 0 && a[0] == b[0] && b[0] == c[0] {
        lemma_bytes_lt_transitive(a.skip(1), b.skip(1), c.skip(1));
    }
}

pub proof fn lemma_bytes_lt_total(a: Seq<u8>, b: Seq<u8>)
    ensures
        bytes_lt(a, b) || a == b || bytes_lt(b, a),
    decreases a.len(),
{
    if a.len() == 0 {
        if b.len() == 0 {
            assert(a =~= b);
        }
    } else if b.len() > 0 && a[0] == b[0] {
        lemma_bytes_lt_total(a.skip(1), b.skip(1));
        if a.skip(1) == b.skip(1) {
            assert forall|i: int| 0 <= i < a.len() implies a[i] == b[i] by {
                if i > 0 {
                    assert(a.skip(1)[i - 1] == b.skip(1)[i - 1]);
                }
            }
            assert(a.len() == a.skip(1).len() + 1 && b.len() == b.skip(1).len() + 1);
            assert(a =~= b);
        }
    }
}

/// Different texts have different bytes.
pub proof fn lemma_utf8_injective(a: Seq<char>, b: Seq<char>)
    ensures
        encode_utf8(a) == encode_utf8(b) <==> a == b,
{
    encode_utf8_decode_utf8(a);
    encode_utf8_decode_utf8(b);
}

/// `text_lt` is a strict total order.
pub proof fn lemma_text_lt_order(a: Seq<char>, b: Seq<char>, c: Seq<char>)
    ensures
        !text_lt(a, a),
        text_lt(a, b) && text_lt(b, c) ==> text_lt(a, c),
        text_lt(a, b) || a == b || text_lt(b, a),
        !(text_lt(a, b) && text_lt(b, a)),
{
    let (x, y, z) = (encode_utf8(a), encode_utf8(b), encode_utf8(c));
    lemma_bytes_lt_irreflexive(x);
    lemma_bytes_lt_total(x, y);
    lemma_utf8_injective(a, b);
    if bytes_lt(x, y) && bytes_lt(y, z) {
        lemma_bytes_lt_transitive(x, y, z);
    }
    if bytes_lt(x, y) && bytes_lt(y, x) {
        lemma_bytes_lt_transitive(x, y, x);
    }
}

pub fn bytes_less(a: &[u8], b: &[u8]) -> (less: bool)
    ensures
        less == bytes_lt(a@, b@),
{
    let mut i: usize = 0;
    assert(a@.skip(0) =~= a@ && b@.skip(0) =~= b@);
    while i < a.len() && i < b.len()
        invariant
            i <= a.len(),
            i <= b.len(),
            bytes_lt(a@, b@) == bytes_lt(a@.skip(i as int), b@.skip(i as int)),
        decreases a.len() - i,
    {
        if a[i] != b[i] {
            return a[i] < b[i];
        }
        assert(a@.skip(i as int).skip(1) =~= a@.skip(i + 1));
        assert(b@.skip(i as int).skip(1) =~= b@.skip(i + 1));
        i += 1;
    }
    i < b.len()
}

pub fn bytes_same(a: &[u8], b: &[u8]) -> (equal: bool)
    ensures
        equal == (a@ == b@),
{
    if a.len() != b.len() {
        return false;
    }
    let mut i: usize = 0;
    while i < a.len()
        invariant
            i <= a.len(),
            a.len() == b.len(),
            forall|j: int| 0 <= j < i ==> a@[j] == b@[j],
        decreases a.len() - i,
    {
        if a[i] != b[i] {
            return false;
        }
        i += 1;
    }
    assert(a@ =~= b@);
    true
}

pub fn text_less(a: &str, b: &str) -> (less: bool)
    ensures
        less == text_lt(a@, b@),
{
    bytes_less(a.as_bytes(), b.as_bytes())
}

pub fn text_same(a: &str, b: &str) -> (equal: bool)
    ensures
        equal == (a@ == b@),
{
    proof {
        lemma_utf8_injective(a@, b@);
    }
    bytes_same(a.as_bytes(), b.as_bytes())
}

/// The pieces of a text between separators. There is always at least one.
pub open spec fn pieces(s: Seq<char>, separator: char) -> Seq<Seq<char>>
    decreases s.len(),
{
    if s.len() == 0 {
        seq![Seq::empty()]
    } else if s.last() == separator {
        pieces(s.drop_last(), separator).push(Seq::empty())
    } else {
        let head = pieces(s.drop_last(), separator);
        head.drop_last().push(head.last().push(s.last()))
    }
}

pub proof fn lemma_pieces_some(s: Seq<char>, separator: char)
    ensures
        pieces(s, separator).len() > 0,
    decreases s.len(),
{
    if s.len() > 0 {
        lemma_pieces_some(s.drop_last(), separator);
    }
}

/// A word without a separator lengthens the last piece.
pub proof fn lemma_pieces_word(s: Seq<char>, word: Seq<char>, separator: char)
    requires
        !word.contains(separator),
    ensures
        pieces(s + word, separator) == pieces(s, separator).drop_last().push(
            pieces(s, separator).last() + word,
        ),
    decreases word.len(),
{
    let head = pieces(s, separator);
    lemma_pieces_some(s, separator);
    if word.len() == 0 {
        assert(s + word =~= s);
        assert(head.last() + word =~= head.last());
        assert(head.drop_last().push(head.last()) =~= head);
    } else {
        let short = word.drop_last();
        assert(word.contains(word.last()));
        assert forall|c: char| short.contains(c) implies word.contains(c) by {
            let i = choose|i: int| 0 <= i < short.len() && short[i] == c;
            assert(word[i] == c);
        }
        lemma_pieces_word(s, short, separator);
        assert((s + word).drop_last() =~= s + short);
        assert((s + word).last() == word.last());
        assert((head.last() + short).push(word.last()) =~= head.last() + word);
        assert(head.drop_last().push(head.last() + short).drop_last() =~= head.drop_last());
    }
}

pub fn split(s: &str, separator: char) -> (parts: Vec<String>)
    ensures
        parts.deep_view() == pieces(s@, separator),
{
    let chars = chars_of(s);
    let mut parts: Vec<String> = Vec::new();
    let mut piece = String::new();
    let mut i: usize = 0;
    assert(s@.take(0) =~= Seq::<char>::empty());
    assert(parts.deep_view().push(piece@) =~= pieces(s@.take(0), separator));
    while i < chars.len()
        invariant
            i <= chars.len(),
            chars@ == s@,
            parts.deep_view().push(piece@) == pieces(s@.take(i as int), separator),
        decreases chars.len() - i,
    {
        let ghost before = parts.deep_view();
        let ghost text = piece@;
        proof {
            assert(s@.take(i + 1).drop_last() =~= s@.take(i as int));
            assert(s@.take(i + 1).last() == s@[i as int]);
            assert(before.push(text).last() == text);
            assert(before.push(text).drop_last() =~= before);
        }
        if chars[i] == separator {
            parts.push(piece);
            piece = String::new();
            assert(parts.deep_view() =~= before.push(text));
        } else {
            piece.push(chars[i]);
        }
        i += 1;
    }
    let ghost before = parts.deep_view();
    let ghost text = piece@;
    assert(s@.take(i as int) =~= s@);
    parts.push(piece);
    assert(parts.deep_view() =~= before.push(text));
    parts
}

/// How many bytes a text takes.
pub open spec fn byte_len(s: Seq<char>) -> nat {
    encode_utf8(s).len()
}

pub fn text_bytes(s: &str) -> (n: usize)
    ensures
        n == byte_len(s@),
{
    s.as_bytes().len()
}

/// The characters of a text.
pub fn chars_of(s: &str) -> (chars: Vec<char>)
    ensures
        chars@ == s@,
{
    let mut chars: Vec<char> = Vec::new();
    for c in it: s.chars()
        invariant
            it.seq() == s@,
            chars@ == s@.take(it.index() as int),
    {
        chars.push(c);
    }
    assert(chars@ =~= s@);
    chars
}

/// Whether a character occurs in a text.
pub fn text_has(s: &str, wanted: char) -> (found: bool)
    ensures
        found == s@.contains(wanted),
{
    let chars = chars_of(s);
    let mut i: usize = 0;
    while i < chars.len()
        invariant
            i <= chars.len(),
            chars@ == s@,
            forall|j: int| 0 <= j < i ==> s@[j] != wanted,
        decreases chars.len() - i,
    {
        if chars[i] == wanted {
            assert(s@[i as int] == wanted);
            return true;
        }
        i += 1;
    }
    false
}

/// `String::from_utf8` accepts exactly well-formed UTF-8 and keeps its bytes.
#[verifier::external_body]
pub(crate) fn utf8_text(bytes: Vec<u8>) -> (text: Option<String>)
    ensures
        text is Some <==> valid_utf8(bytes@),
        text matches Some(s) ==> encode_utf8(s@) == bytes@,
{
    String::from_utf8(bytes).ok()
}

/// An owned copy of a text.
pub fn owned(s: &str) -> (copy: String)
    ensures
        copy@ == s@,
{
    String::from_str(s)
}

pub fn cat2(a: &str, b: &str) -> (joined: String)
    ensures
        joined@ == a@ + b@,
{
    let mut joined = String::from_str(a);
    joined.append(b);
    joined
}

pub fn cat3(a: &str, b: &str, c: &str) -> (joined: String)
    ensures
        joined@ == a@ + b@ + c@,
{
    let mut joined = cat2(a, b);
    joined.append(c);
    joined
}

pub fn cat4(a: &str, b: &str, c: &str, d: &str) -> (joined: String)
    ensures
        joined@ == a@ + b@ + c@ + d@,
{
    let mut joined = cat3(a, b, c);
    joined.append(d);
    joined
}

pub fn cat5(a: &str, b: &str, c: &str, d: &str, e: &str) -> (joined: String)
    ensures
        joined@ == a@ + b@ + c@ + d@ + e@,
{
    let mut joined = cat4(a, b, c, d);
    joined.append(e);
    joined
}

pub fn cat6(a: &str, b: &str, c: &str, d: &str, e: &str, f: &str) -> (joined: String)
    ensures
        joined@ == a@ + b@ + c@ + d@ + e@ + f@,
{
    let mut joined = cat5(a, b, c, d, e);
    joined.append(f);
    joined
}

/// The decimal digit for a number below ten.
pub open spec fn digit(n: int) -> char {
    (48 + n) as char
}

/// A natural number in decimal, without leading zeros.
pub open spec fn decimal(n: nat) -> Seq<char>
    decreases n,
{
    if n < 10 {
        seq![digit(n as int)]
    } else {
        decimal(n / 10).push(digit((n % 10) as int))
    }
}

/// An integer in decimal, with a sign only when it is negative.
pub open spec fn signed_decimal(n: int) -> Seq<char> {
    if n < 0 {
        "-"@ + decimal((-n) as nat)
    } else {
        decimal(n as nat)
    }
}

fn digit_char(n: u8) -> (c: char)
    requires
        n < 10,
    ensures
        c == digit(n as int),
{
    (48 + n) as char
}

pub fn decimal_text(n: u64) -> (s: String)
    ensures
        s@ == decimal(n as nat),
    decreases n,
{
    let mut s = String::new();
    if n >= 10 {
        s = decimal_text(n / 10);
    }
    s.push(digit_char((n % 10) as u8));
    assert(n < 10 ==> s@ =~= seq![digit(n as int)]);
    s
}

pub fn signed_text(n: i32) -> (s: String)
    ensures
        s@ == signed_decimal(n as int),
{
    if n < 0 {
        cat2("-", decimal_text((-(n as i64)) as u64).as_str())
    } else {
        decimal_text(n as u64)
    }
}

/// Lower-case hexadecimal digit for a number below sixteen.
pub open spec fn hex_digit(n: int) -> char {
    if n < 10 {
        (48 + n) as char
    } else {
        (87 + n) as char
    }
}

/// Two lower-case hexadecimal digits for each byte.
pub open spec fn hex(bytes: Seq<u8>) -> Seq<char> {
    Seq::new(
        2 * bytes.len(),
        |i: int|
            if i % 2 == 0 {
                hex_digit(bytes[i / 2] as int / 16)
            } else {
                hex_digit(bytes[i / 2] as int % 16)
            },
    )
}

fn hex_char(n: u8) -> (c: char)
    requires
        n < 16,
    ensures
        c == hex_digit(n as int),
{
    if n < 10 {
        (48 + n) as char
    } else {
        (87 + n) as char
    }
}

pub fn hex_text(bytes: &[u8]) -> (s: String)
    ensures
        s@ == hex(bytes@),
{
    let mut s = String::new();
    let mut i: usize = 0;
    while i < bytes.len()
        invariant
            i <= bytes.len(),
            s@ == hex(bytes@.take(i as int)),
        decreases bytes.len() - i,
    {
        s.push(hex_char(bytes[i] / 16));
        s.push(hex_char(bytes[i] % 16));
        i += 1;
        assert(s@ =~= hex(bytes@.take(i as int)));
    }
    assert(bytes@.take(i as int) =~= bytes@);
    s
}

} // verus!
