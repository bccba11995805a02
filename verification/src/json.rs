//! JSON text, field by field, in the order the wire format fixes.

use vstd::prelude::*;
use vstd::string::*;

use crate::text;
use crate::text::owned;

verus! {

/// How a character stands in a JSON string: a quote, a backslash and the control
/// characters are escaped, five of them with a letter of their own.
pub open spec fn escaped_char(c: char) -> Seq<char> {
    if c == '"' {
        seq!['\\', '"']
    } else if c == '\\' {
        seq!['\\', '\\']
    } else if c == '\u{8}' {
        seq!['\\', 'b']
    } else if c == '\u{9}' {
        seq!['\\', 't']
    } else if c == '\u{a}' {
        seq!['\\', 'n']
    } else if c == '\u{c}' {
        seq!['\\', 'f']
    } else if c == '\u{d}' {
        seq!['\\', 'r']
    } else if (c as int) < 32 {
        seq!['\\', 'u', '0', '0', text::hex_digit(c as int / 16), text::hex_digit(c as int % 16)]
    } else {
        seq![c]
    }
}

/// A text with every character as it stands in a JSON string.
pub open spec fn escaped(s: Seq<char>) -> Seq<char>
    decreases s.len(),
{
    if s.len() == 0 {
        Seq::empty()
    } else {
        escaped_char(s[0]) + escaped(s.skip(1))
    }
}

/// A text as a JSON string, quoted and escaped.
#[verifier::opaque]
pub open spec fn json_string_text(s: Seq<char>) -> Seq<char> {
    seq!['"'] + (escaped(s) + seq!['"'])
}

/// `serde_json::to_string` on a text: a quote, the escaped characters, a quote.
/// Writing a string into memory cannot fail.
#[verifier::external_body]
pub(crate) fn json_string(s: &str) -> (json: String)
    ensures
        json@ == json_string_text(s@),
{
    serde_json::to_string(s).unwrap()
}

/// Items separated by commas.
pub open spec fn listed(items: Seq<Seq<char>>) -> Seq<char>
    decreases items.len(),
{
    if items.len() == 0 {
        ""@
    } else if items.len() == 1 {
        items[0]
    } else {
        listed(items.drop_last()) + ","@ + items.last()
    }
}

pub open spec fn json_list(items: Seq<Seq<char>>) -> Seq<char> {
    "["@ + listed(items) + "]"@
}

pub open spec fn byte_items(bytes: Seq<u8>) -> Seq<Seq<char>> {
    Seq::new(bytes.len(), |i: int| text::decimal(bytes[i] as nat))
}

pub open spec fn text_items(texts: Seq<Seq<char>>) -> Seq<Seq<char>> {
    Seq::new(texts.len(), |i: int| json_string_text(texts[i]))
}

pub open spec fn json_optional_text(s: Option<Seq<char>>) -> Seq<char> {
    match s {
        Some(text) => json_string_text(text),
        None => "null"@,
    }
}

/// Appends one item to a list under construction.
pub proof fn lemma_listed_push(items: Seq<Seq<char>>, item: Seq<char>)
    ensures
        listed(items.push(item)) == if items.len() == 0 {
            item
        } else {
            listed(items) + ","@ + item
        },
{
    assert(items.push(item).drop_last() =~= items);
}

fn push_byte(text: &mut String, byte: u8)
    ensures
        final(text)@ == old(text)@ + text::decimal(byte as nat),
{
    let ghost before = text@;
    proof {
        reveal_with_fuel(text::decimal, 3);
    }
    if byte >= 100 {
        text.push((48 + byte / 100) as char);
    }
    if byte >= 10 {
        text.push((48 + (byte / 10) % 10) as char);
    }
    text.push((48 + byte % 10) as char);
    assert(text@ =~= before + text::decimal(byte as nat));
}

/// Bytes as a list of numbers.
pub fn json_bytes(bytes: &[u8]) -> (json: String)
    ensures
        json@ == json_list(byte_items(bytes@)),
{
    let ghost items = byte_items(bytes@);
    let mut json = owned("[");
    let mut i: usize = 0;
    proof {
        reveal_strlit("");
        assert(items.take(0) =~= Seq::<Seq<char>>::empty());
        assert(json@ =~= "["@ + listed(items.take(0)));
    }
    while i < bytes.len()
        invariant
            i <= bytes.len(),
            items == byte_items(bytes@),
            json@ == "["@ + listed(items.take(i as int)),
        decreases bytes.len() - i,
    {
        let ghost before = items.take(i as int);
        if i > 0 {
            json.append(",");
        }
        push_byte(&mut json, bytes[i]);
        proof {
            reveal_strlit("");
            lemma_listed_push(before, items[i as int]);
            assert(items.take(i + 1) =~= before.push(items[i as int]));
            assert(json@ =~= "["@ + listed(items.take(i + 1)));
        }
        i += 1;
    }
    assert(items.take(i as int) =~= items);
    json.append("]");
    json
}

/// Texts as a list of strings.
pub fn json_texts(texts: &Vec<String>) -> (json: String)
    ensures
        json@ == json_list(text_items(texts.deep_view())),
{
    let ghost items = text_items(texts.deep_view());
    let mut json = owned("[");
    let mut i: usize = 0;
    proof {
        reveal_strlit("");
        assert(items.take(0) =~= Seq::<Seq<char>>::empty());
        assert(json@ =~= "["@ + listed(items.take(0)));
    }
    while i < texts.len()
        invariant
            i <= texts.len(),
            items == text_items(texts.deep_view()),
            json@ == "["@ + listed(items.take(i as int)),
        decreases texts.len() - i,
    {
        let ghost before = items.take(i as int);
        if i > 0 {
            json.append(",");
        }
        let item = json_string(texts[i].as_str());
        json.append(item.as_str());
        proof {
            reveal_strlit("");
            assert(item@ == items[i as int]);
            lemma_listed_push(before, items[i as int]);
            assert(items.take(i + 1) =~= before.push(items[i as int]));
            assert(json@ =~= "["@ + listed(items.take(i + 1)));
        }
        i += 1;
    }
    assert(items.take(i as int) =~= items);
    json.append("]");
    json
}

pub fn json_optional(s: Option<&String>) -> (json: String)
    ensures
        json@ == json_optional_text(
            match s {
                Some(text) => Some(text@),
                None => None,
            },
        ),
{
    match s {
        Some(text) => json_string(text.as_str()),
        None => owned("null"),
    }
}

/// Lists of texts as a list of lists of strings.
pub open spec fn list_items(lists: Seq<Seq<Seq<char>>>) -> Seq<Seq<char>> {
    Seq::new(lists.len(), |i: int| json_list(text_items(lists[i])))
}

pub fn json_text_lists(lists: &Vec<Vec<String>>) -> (json: String)
    ensures
        json@ == json_list(list_items(lists.deep_view())),
{
    let ghost items = list_items(lists.deep_view());
    let mut json = owned("[");
    let mut i: usize = 0;
    proof {
        reveal_strlit("");
        assert(items.take(0) =~= Seq::<Seq<char>>::empty());
        assert(json@ =~= "["@ + listed(items.take(0)));
    }
    while i < lists.len()
        invariant
            i <= lists.len(),
            items == list_items(lists.deep_view()),
            json@ == "["@ + listed(items.take(i as int)),
        decreases lists.len() - i,
    {
        let ghost before = items.take(i as int);
        if i > 0 {
            json.append(",");
        }
        let item = json_texts(&lists[i]);
        json.append(item.as_str());
        proof {
            reveal_strlit("");
            assert(lists.deep_view()[i as int] == lists@[i as int].deep_view());
            assert(item@ == items[i as int]);
            lemma_listed_push(before, items[i as int]);
            assert(items.take(i + 1) =~= before.push(items[i as int]));
            assert(json@ =~= "["@ + listed(items.take(i + 1)));
        }
        i += 1;
    }
    assert(items.take(i as int) =~= items);
    json.append("]");
    json
}

pub open spec fn json_bool_text(b: bool) -> Seq<char> {
    if b {
        "true"@
    } else {
        "false"@
    }
}

pub fn json_bool(b: bool) -> (json: String)
    ensures
        json@ == json_bool_text(b),
{
    if b {
        owned("true")
    } else {
        owned("false")
    }
}

pub open spec fn json_optional_number_text(n: Option<u64>) -> Seq<char> {
    match n {
        Some(n) => text::decimal(n as nat),
        None => "null"@,
    }
}

pub fn json_optional_number(n: Option<u64>) -> (json: String)
    ensures
        json@ == json_optional_number_text(n),
{
    match n {
        Some(n) => crate::text::decimal_text(n),
        None => owned("null"),
    }
}

/// Named fields. A name is plain: nothing in it is escaped.
pub open spec fn field_items(fields: Seq<(Seq<char>, Seq<char>)>) -> Seq<Seq<char>> {
    Seq::new(fields.len(), |i: int| "\""@ + fields[i].0 + "\":"@ + fields[i].1)
}

pub open spec fn json_object_text(fields: Seq<(Seq<char>, Seq<char>)>) -> Seq<char> {
    "{"@ + listed(field_items(fields)) + "}"@
}

/// An object of fields whose values are JSON already.
pub fn json_object(fields: &Vec<(&str, String)>) -> (json: String)
    ensures
        json@ == json_object_text(named_fields(fields@)),
{
    let ghost items = field_items(named_fields(fields@));
    let mut json = owned("{");
    let mut i: usize = 0;
    proof {
        reveal_strlit("");
        assert(items.take(0) =~= Seq::<Seq<char>>::empty());
        assert(json@ =~= "{"@ + listed(items.take(0)));
    }
    while i < fields.len()
        invariant
            i <= fields.len(),
            items == field_items(named_fields(fields@)),
            json@ == "{"@ + listed(items.take(i as int)),
        decreases fields.len() - i,
    {
        let ghost before = items.take(i as int);
        if i > 0 {
            json.append(",");
        }
        let item = crate::text::cat4("\"", fields[i].0, "\":", fields[i].1.as_str());
        json.append(item.as_str());
        proof {
            reveal_strlit("");
            assert(item@ =~= items[i as int]);
            lemma_listed_push(before, items[i as int]);
            assert(items.take(i + 1) =~= before.push(items[i as int]));
            assert(json@ =~= "{"@ + listed(items.take(i + 1)));
        }
        i += 1;
    }
    assert(items.take(i as int) =~= items);
    json.append("}");
    json
}

pub open spec fn named_fields(fields: Seq<(&str, String)>) -> Seq<(Seq<char>, Seq<char>)> {
    Seq::new(fields.len(), |i: int| (fields[i].0@, fields[i].1@))
}

} // verus!
