//! Texts that are signed or hashed say one thing only: different values have
//! different texts.

use vstd::prelude::*;

use crate::crypto;
use crate::error::ErrorModel;
use crate::history::wire;
use crate::history::InvocationModel;
use crate::json;
use crate::pin::content;
use crate::pin::decide;
use crate::pin::inspect;
use crate::pin::record::{
    RecoveryChoice, RecoveryInspectionModel, RecoveryReceiptModel, RecoveryState,
    RecoveryVersionModel,
};
use crate::store::{FingerprintModel, StoreModel};
use crate::text;

verus! {

proof fn lemma_assoc(a: Seq<char>, b: Seq<char>, c: Seq<char>)
    ensures
        (a + b) + c == a + (b + c),
{
    assert((a + b) + c =~= a + (b + c));
}

proof fn lemma_cancel(p: Seq<char>, x: Seq<char>, y: Seq<char>)
    requires
        p + x == p + y,
    ensures
        x == y,
{
    assert((p + x).skip(p.len() as int) =~= x);
    assert((p + y).skip(p.len() as int) =~= y);
}

/// The first character of what follows a first part.
proof fn lemma_first(p: Seq<char>, x: Seq<char>)
    requires
        p.len() > 0,
    ensures
        (p + x).len() > 0,
        (p + x)[0] == p[0],
{
}

proof fn lemma_escape(c: char, x: Seq<char>, d: char, y: Seq<char>)
    requires
        json::escaped_char(c) + x == json::escaped_char(d) + y,
    ensures
        c == d,
        x == y,
{
    let a = json::escaped_char(c);
    let b = json::escaped_char(d);
    assert((a + x)[0] == a[0] && (b + y)[0] == b[0]);
    if a[0] == '\\' {
        assert((a + x)[1] == a[1] && (b + y)[1] == b[1]);
        if a[1] == 'u' {
            assert((a + x)[4] == a[4] && (b + y)[4] == b[4]);
            assert((a + x)[5] == a[5] && (b + y)[5] == b[5]);
            assert(c as int == (c as int / 16) * 16 + c as int % 16);
            assert(d as int == (d as int / 16) * 16 + d as int % 16);
        }
    }
    assert(c == d);
    lemma_cancel(a, x, y);
}

proof fn lemma_escaped(a: Seq<char>, x: Seq<char>, b: Seq<char>, y: Seq<char>)
    requires
        json::escaped(a) + (seq!['"'] + x) == json::escaped(b) + (seq!['"'] + y),
    ensures
        a == b,
        x == y,
    decreases a.len(),
{
    let q = seq!['"'];
    let none = Seq::<char>::empty();
    if a.len() == 0 {
        assert(none + (q + x) =~= q + x);
        lemma_first(q, x);
        if b.len() > 0 {
            lemma_assoc(json::escaped_char(b[0]), json::escaped(b.skip(1)), q + y);
            lemma_first(json::escaped_char(b[0]), json::escaped(b.skip(1)) + (q + y));
            assert(false);
        }
        assert(none + (q + y) =~= q + y);
        lemma_cancel(q, x, y);
        assert(a =~= b);
    } else {
        lemma_assoc(json::escaped_char(a[0]), json::escaped(a.skip(1)), q + x);
        if b.len() == 0 {
            assert(none + (q + y) =~= q + y);
            lemma_first(q, y);
            lemma_first(json::escaped_char(a[0]), json::escaped(a.skip(1)) + (q + x));
            assert(false);
        }
        lemma_assoc(json::escaped_char(b[0]), json::escaped(b.skip(1)), q + y);
        lemma_escape(
            a[0],
            json::escaped(a.skip(1)) + (q + x),
            b[0],
            json::escaped(b.skip(1)) + (q + y),
        );
        lemma_escaped(a.skip(1), x, b.skip(1), y);
        assert(a =~= seq![a[0]] + a.skip(1));
        assert(b =~= seq![b[0]] + b.skip(1));
    }
}

/// A JSON string ends where it ends, whatever follows.
pub proof fn lemma_string(a: Seq<char>, x: Seq<char>, b: Seq<char>, y: Seq<char>)
    requires
        json::json_string_text(a) + x == json::json_string_text(b) + y,
    ensures
        a == b,
        x == y,
{
    reveal(json::json_string_text);
    let q = seq!['"'];
    lemma_assoc(q, json::escaped(a) + q, x);
    lemma_assoc(q, json::escaped(b) + q, y);
    lemma_assoc(json::escaped(a), q, x);
    lemma_assoc(json::escaped(b), q, y);
    lemma_cancel(q, json::escaped(a) + (q + x), json::escaped(b) + (q + y));
    lemma_escaped(a, x, b, y);
}

proof fn lemma_string_first(a: Seq<char>, x: Seq<char>)
    ensures
        (json::json_string_text(a) + x).len() > 0,
        (json::json_string_text(a) + x)[0] == '"',
{
    reveal(json::json_string_text);
    lemma_first(json::json_string_text(a), x);
}

proof fn lemma_optional_string(a: Option<Seq<char>>, x: Seq<char>, b: Option<Seq<char>>, y: Seq<char>)
    requires
        json::json_optional_text(a) + x == json::json_optional_text(b) + y,
    ensures
        a == b,
        x == y,
{
    reveal_strlit("null");
    if let Some(s) = a {
        lemma_string_first(s, x);
    } else {
        lemma_first("null"@, x);
    }
    if let Some(s) = b {
        lemma_string_first(s, y);
    } else {
        lemma_first("null"@, y);
    }
    if a is Some {
        lemma_string(a->0, x, b->0, y);
    } else {
        lemma_cancel("null"@, x, y);
    }
}

pub open spec fn is_digit(c: char) -> bool {
    '0' <= c <= '9'
}

/// What follows a number does not go on with a digit.
pub open spec fn plain(s: Seq<char>) -> bool {
    s.len() > 0 && !is_digit(s[0])
}

proof fn lemma_digits(n: nat)
    ensures
        text::decimal(n).len() > 0,
        forall|i: int| 0 <= i < text::decimal(n).len() ==> is_digit(#[trigger] text::decimal(n)[i]),
    decreases n,
{
    if n >= 10 {
        lemma_digits(n / 10);
    }
}

proof fn lemma_digit(a: int, b: int)
    requires
        0 <= a < 10,
        0 <= b < 10,
        text::digit(a) == text::digit(b),
    ensures
        a == b,
{
    assert(text::digit(a) as int == 48 + a);
    assert(text::digit(b) as int == 48 + b);
}

proof fn lemma_decimal(a: nat, b: nat)
    requires
        text::decimal(a) == text::decimal(b),
    ensures
        a == b,
    decreases a,
{
    let x = text::decimal(a);
    let y = text::decimal(b);
    lemma_digits(a / 10);
    lemma_digits(b / 10);
    assert(x.last() == text::digit((a % 10) as int));
    assert(y.last() == text::digit((b % 10) as int));
    lemma_digit((a % 10) as int, (b % 10) as int);
    if a >= 10 && b >= 10 {
        assert(x.drop_last() =~= text::decimal(a / 10));
        assert(y.drop_last() =~= text::decimal(b / 10));
        lemma_decimal(a / 10, b / 10);
    }
}

proof fn lemma_number(a: nat, x: Seq<char>, b: nat, y: Seq<char>)
    requires
        text::decimal(a) + x == text::decimal(b) + y,
        plain(x),
        plain(y),
    ensures
        a == b,
        x == y,
{
    let p = text::decimal(a);
    let q = text::decimal(b);
    lemma_digits(a);
    lemma_digits(b);
    if p.len() < q.len() {
        assert((p + x)[p.len() as int] == x[0]);
        assert((q + y)[p.len() as int] == q[p.len() as int]);
        assert(false);
    }
    if q.len() < p.len() {
        assert((q + y)[q.len() as int] == y[0]);
        assert((p + x)[q.len() as int] == p[q.len() as int]);
        assert(false);
    }
    assert((p + x).take(p.len() as int) =~= p);
    assert((q + y).take(q.len() as int) =~= q);
    lemma_decimal(a, b);
    lemma_cancel(p, x, y);
}

proof fn lemma_signed(a: int, x: Seq<char>, b: int, y: Seq<char>)
    requires
        text::signed_decimal(a) + x == text::signed_decimal(b) + y,
        plain(x),
        plain(y),
    ensures
        a == b,
        x == y,
{
    reveal_strlit("-");
    let m = |n: int| if n < 0 { -n } else { n };
    lemma_digits(m(a) as nat);
    lemma_digits(m(b) as nat);
    lemma_first(text::signed_decimal(a), x);
    lemma_first(text::signed_decimal(b), y);
    if a < 0 {
        assert(b < 0);
        lemma_assoc("-"@, text::decimal((-a) as nat), x);
        lemma_assoc("-"@, text::decimal((-b) as nat), y);
        lemma_cancel(
            "-"@,
            text::decimal((-a) as nat) + x,
            text::decimal((-b) as nat) + y,
        );
        lemma_number((-a) as nat, x, (-b) as nat, y);
    } else {
        lemma_number(a as nat, x, b as nat, y);
    }
}

proof fn lemma_listed_front(items: Seq<Seq<char>>)
    requires
        items.len() >= 2,
    ensures
        json::listed(items) == items[0] + (","@ + json::listed(items.skip(1))),
    decreases items.len(),
{
    let last = items.last();
    let init = items.drop_last();
    reveal_with_fuel(json::listed, 3);
    assert(init[0] == items[0]);
    if items.len() == 2 {
        assert(items.skip(1) =~= seq![items[1]]);
        assert(init =~= seq![items[0]]);
        lemma_assoc(items[0], ","@, items[1]);
    } else {
        lemma_listed_front(init);
        let tail = items.skip(1);
        assert(tail.drop_last() =~= init.skip(1));
        assert(tail.last() == last);
        let mid = json::listed(init.skip(1));
        lemma_assoc(items[0], ","@ + mid, ","@);
        lemma_assoc(items[0], (","@ + mid) + ","@, last);
        lemma_assoc(","@, mid, ","@);
        lemma_assoc(","@, mid + ","@, last);
    }
}

/// What follows the first item of a list.
pub open spec fn list_rest(items: Seq<Seq<char>>, x: Seq<char>) -> Seq<char> {
    if items.len() <= 1 {
        "]"@ + x
    } else {
        ","@ + (json::listed(items.skip(1)) + ("]"@ + x))
    }
}

proof fn lemma_list_rest(items: Seq<Seq<char>>, x: Seq<char>)
    requires
        items.len() > 0,
    ensures
        json::listed(items) + ("]"@ + x) == items[0] + list_rest(items, x),
{
    if items.len() >= 2 {
        lemma_listed_front(items);
        lemma_assoc(items[0], ","@ + json::listed(items.skip(1)), "]"@ + x);
        lemma_assoc(","@, json::listed(items.skip(1)), "]"@ + x);
    }
}

proof fn lemma_rest_plain(items: Seq<Seq<char>>, x: Seq<char>)
    ensures
        plain(list_rest(items, x)),
        items.len() <= 1 ==> list_rest(items, x)[0] == ']',
        items.len() > 1 ==> list_rest(items, x)[0] == ',',
{
    reveal_strlit("]");
    reveal_strlit(",");
}

proof fn lemma_texts(a: Seq<Seq<char>>, x: Seq<char>, b: Seq<Seq<char>>, y: Seq<char>)
    requires
        json::listed(json::text_items(a)) + ("]"@ + x) == json::listed(json::text_items(b)) + ("]"@ + y),
    ensures
        a == b,
        x == y,
    decreases a.len(),
{
    let p = json::text_items(a);
    let q = json::text_items(b);
    reveal_strlit("");
    reveal_strlit("]");
    if a.len() == 0 || b.len() == 0 {
        if a.len() == 0 {
            assert(json::listed(p) + ("]"@ + x) =~= "]"@ + x);
        } else {
            lemma_list_rest(p, x);
            lemma_string_first(a[0], list_rest(p, x));
        }
        if b.len() == 0 {
            assert(json::listed(q) + ("]"@ + y) =~= "]"@ + y);
        } else {
            lemma_list_rest(q, y);
            lemma_string_first(b[0], list_rest(q, y));
        }
        assert(a.len() == 0 && b.len() == 0);
        lemma_cancel("]"@, x, y);
        assert(a =~= b);
    } else {
        lemma_list_rest(p, x);
        lemma_list_rest(q, y);
        lemma_string(a[0], list_rest(p, x), b[0], list_rest(q, y));
        lemma_rest_plain(p, x);
        lemma_rest_plain(q, y);
        if a.len() == 1 {
            assert(b.len() == 1);
            lemma_cancel("]"@, x, y);
            assert(a =~= b);
        } else {
            assert(b.len() > 1);
            assert(p.skip(1) =~= json::text_items(a.skip(1)));
            assert(q.skip(1) =~= json::text_items(b.skip(1)));
            lemma_cancel(
                ","@,
                json::listed(p.skip(1)) + ("]"@ + x),
                json::listed(q.skip(1)) + ("]"@ + y),
            );
            lemma_texts(a.skip(1), x, b.skip(1), y);
            assert(a =~= seq![a[0]] + a.skip(1));
            assert(b =~= seq![b[0]] + b.skip(1));
        }
    }
}

proof fn lemma_bytes(a: Seq<u8>, x: Seq<char>, b: Seq<u8>, y: Seq<char>)
    requires
        json::listed(json::byte_items(a)) + ("]"@ + x) == json::listed(json::byte_items(b)) + ("]"@ + y),
    ensures
        a == b,
        x == y,
    decreases a.len(),
{
    let p = json::byte_items(a);
    let q = json::byte_items(b);
    reveal_strlit("");
    reveal_strlit("]");
    if a.len() == 0 || b.len() == 0 {
        if a.len() == 0 {
            assert(json::listed(p) + ("]"@ + x) =~= "]"@ + x);
        } else {
            lemma_list_rest(p, x);
            lemma_digits(a[0] as nat);
            lemma_first(p[0], list_rest(p, x));
        }
        if b.len() == 0 {
            assert(json::listed(q) + ("]"@ + y) =~= "]"@ + y);
        } else {
            lemma_list_rest(q, y);
            lemma_digits(b[0] as nat);
            lemma_first(q[0], list_rest(q, y));
        }
        assert(a.len() == 0 && b.len() == 0);
        lemma_cancel("]"@, x, y);
        assert(a =~= b);
    } else {
        lemma_list_rest(p, x);
        lemma_list_rest(q, y);
        lemma_rest_plain(p, x);
        lemma_rest_plain(q, y);
        lemma_number(a[0] as nat, list_rest(p, x), b[0] as nat, list_rest(q, y));
        if a.len() == 1 {
            assert(b.len() == 1);
            lemma_cancel("]"@, x, y);
            assert(a =~= b);
        } else {
            assert(b.len() > 1);
            assert(p.skip(1) =~= json::byte_items(a.skip(1)));
            assert(q.skip(1) =~= json::byte_items(b.skip(1)));
            lemma_cancel(
                ","@,
                json::listed(p.skip(1)) + ("]"@ + x),
                json::listed(q.skip(1)) + ("]"@ + y),
            );
            lemma_bytes(a.skip(1), x, b.skip(1), y);
            assert(a =~= seq![a[0]] + a.skip(1));
            assert(b =~= seq![b[0]] + b.skip(1));
        }
    }
}

proof fn lemma_byte_list(a: Seq<u8>, x: Seq<char>, b: Seq<u8>, y: Seq<char>)
    requires
        json::json_list(json::byte_items(a)) + x == json::json_list(json::byte_items(b)) + y,
    ensures
        a == b,
        x == y,
{
    let p = json::listed(json::byte_items(a));
    let q = json::listed(json::byte_items(b));
    lemma_assoc("["@, p, "]"@);
    lemma_assoc("["@, q, "]"@);
    lemma_assoc("["@, p + "]"@, x);
    lemma_assoc("["@, q + "]"@, y);
    lemma_assoc(p, "]"@, x);
    lemma_assoc(q, "]"@, y);
    lemma_cancel("["@, p + ("]"@ + x), q + ("]"@ + y));
    lemma_bytes(a, x, b, y);
}

proof fn lemma_text_list(a: Seq<Seq<char>>, x: Seq<char>, b: Seq<Seq<char>>, y: Seq<char>)
    requires
        json::json_list(json::text_items(a)) + x == json::json_list(json::text_items(b)) + y,
    ensures
        a == b,
        x == y,
{
    let p = json::listed(json::text_items(a));
    let q = json::listed(json::text_items(b));
    lemma_assoc("["@, p, "]"@);
    lemma_assoc("["@, q, "]"@);
    lemma_assoc("["@, p + "]"@, x);
    lemma_assoc("["@, q + "]"@, y);
    lemma_assoc(p, "]"@, x);
    lemma_assoc(q, "]"@, y);
    lemma_cancel("["@, p + ("]"@ + x), q + ("]"@ + y));
    lemma_texts(a, x, b, y);
}

/// The parts of the text from `k` on, and what follows.
pub open spec fn invocation_from(v: InvocationModel, x: Seq<char>, k: int) -> Seq<char>
    decreases 17 - k,
{
    if k == 0 {
        "{\"id\":"@ + invocation_from(v, x, 1)
    } else if k == 1 {
        json::json_string_text(v.id) + invocation_from(v, x, 2)
    } else if k == 2 {
        ",\"from\":"@ + invocation_from(v, x, 3)
    } else if k == 3 {
        json::json_string_text(v.from) + invocation_from(v, x, 4)
    } else if k == 4 {
        ",\"origin_key\":"@ + invocation_from(v, x, 5)
    } else if k == 5 {
        json::json_list(json::byte_items(v.origin_key)) + invocation_from(v, x, 6)
    } else if k == 6 {
        ",\"body\":"@ + invocation_from(v, x, 7)
    } else if k == 7 {
        json::json_string_text(v.body) + invocation_from(v, x, 8)
    } else if k == 8 {
        ",\"runner_key\":"@ + invocation_from(v, x, 9)
    } else if k == 9 {
        json::json_list(json::byte_items(v.runner_key)) + invocation_from(v, x, 10)
    } else if k == 10 {
        ",\"argv\":"@ + invocation_from(v, x, 11)
    } else if k == 11 {
        json::json_list(json::text_items(v.argv)) + invocation_from(v, x, 12)
    } else if k == 12 {
        ",\"retry_of\":"@ + invocation_from(v, x, 13)
    } else if k == 13 {
        json::json_optional_text(v.retry_of) + invocation_from(v, x, 14)
    } else if k == 14 {
        ",\"legacy_observer\":"@ + invocation_from(v, x, 15)
    } else if k == 15 {
        json::json_optional_text(v.legacy_observer) + invocation_from(v, x, 16)
    } else if k == 16 {
        "}"@ + invocation_from(v, x, 17)
    } else {
        x
    }
}

proof fn lemma_invocation_parts(v: InvocationModel, x: Seq<char>)
    ensures
        wire::invocation_json(v) + x == invocation_from(v, x, 0),
{
    let t17 = x;
    let t16 = "}"@ + t17;
    let t15 = json::json_optional_text(v.legacy_observer) + t16;
    let t14 = ",\"legacy_observer\":"@ + t15;
    let t13 = json::json_optional_text(v.retry_of) + t14;
    let t12 = ",\"retry_of\":"@ + t13;
    let t11 = json::json_list(json::text_items(v.argv)) + t12;
    let t10 = ",\"argv\":"@ + t11;
    let t9 = json::json_list(json::byte_items(v.runner_key)) + t10;
    let t8 = ",\"runner_key\":"@ + t9;
    let t7 = json::json_string_text(v.body) + t8;
    let t6 = ",\"body\":"@ + t7;
    let t5 = json::json_list(json::byte_items(v.origin_key)) + t6;
    let t4 = ",\"origin_key\":"@ + t5;
    let t3 = json::json_string_text(v.from) + t4;
    let t2 = ",\"from\":"@ + t3;
    let t1 = json::json_string_text(v.id) + t2;
    let t0 = "{\"id\":"@ + t1;
    let l0 = "{\"id\":"@;
    let l1 = l0 + json::json_string_text(v.id);
    let l2 = l1 + ",\"from\":"@;
    let l3 = l2 + json::json_string_text(v.from);
    let l4 = l3 + ",\"origin_key\":"@;
    let l5 = l4 + json::json_list(json::byte_items(v.origin_key));
    let l6 = l5 + ",\"body\":"@;
    let l7 = l6 + json::json_string_text(v.body);
    let l8 = l7 + ",\"runner_key\":"@;
    let l9 = l8 + json::json_list(json::byte_items(v.runner_key));
    let l10 = l9 + ",\"argv\":"@;
    let l11 = l10 + json::json_list(json::text_items(v.argv));
    let l12 = l11 + ",\"retry_of\":"@;
    let l13 = l12 + json::json_optional_text(v.retry_of);
    let l14 = l13 + ",\"legacy_observer\":"@;
    let l15 = l14 + json::json_optional_text(v.legacy_observer);
    let l16 = l15 + "}"@;
    lemma_assoc(l15, "}"@, t17);
    lemma_assoc(l14, json::json_optional_text(v.legacy_observer), t16);
    lemma_assoc(l13, ",\"legacy_observer\":"@, t15);
    lemma_assoc(l12, json::json_optional_text(v.retry_of), t14);
    lemma_assoc(l11, ",\"retry_of\":"@, t13);
    lemma_assoc(l10, json::json_list(json::text_items(v.argv)), t12);
    lemma_assoc(l9, ",\"argv\":"@, t11);
    lemma_assoc(l8, json::json_list(json::byte_items(v.runner_key)), t10);
    lemma_assoc(l7, ",\"runner_key\":"@, t9);
    lemma_assoc(l6, json::json_string_text(v.body), t8);
    lemma_assoc(l5, ",\"body\":"@, t7);
    lemma_assoc(l4, json::json_list(json::byte_items(v.origin_key)), t6);
    lemma_assoc(l3, ",\"origin_key\":"@, t5);
    lemma_assoc(l2, json::json_string_text(v.from), t4);
    lemma_assoc(l1, ",\"from\":"@, t3);
    lemma_assoc(l0, json::json_string_text(v.id), t2);
    reveal_with_fuel(invocation_from, 18);
}

proof fn lemma_invocation(a: InvocationModel, x: Seq<char>, b: InvocationModel, y: Seq<char>)
    requires
        wire::invocation_json(a) + x == wire::invocation_json(b) + y,
    ensures
        a == b,
        x == y,
{
    lemma_invocation_parts(a, x);
    lemma_invocation_parts(b, y);
    reveal_with_fuel(invocation_from, 18);
    lemma_cancel("{\"id\":"@, invocation_from(a, x, 1), invocation_from(b, y, 1));
    lemma_string(a.id, invocation_from(a, x, 2), b.id, invocation_from(b, y, 2));
    lemma_cancel(",\"from\":"@, invocation_from(a, x, 3), invocation_from(b, y, 3));
    lemma_string(a.from, invocation_from(a, x, 4), b.from, invocation_from(b, y, 4));
    lemma_cancel(",\"origin_key\":"@, invocation_from(a, x, 5), invocation_from(b, y, 5));
    lemma_byte_list(a.origin_key, invocation_from(a, x, 6), b.origin_key, invocation_from(b, y, 6));
    lemma_cancel(",\"body\":"@, invocation_from(a, x, 7), invocation_from(b, y, 7));
    lemma_string(a.body, invocation_from(a, x, 8), b.body, invocation_from(b, y, 8));
    lemma_cancel(",\"runner_key\":"@, invocation_from(a, x, 9), invocation_from(b, y, 9));
    lemma_byte_list(a.runner_key, invocation_from(a, x, 10), b.runner_key, invocation_from(b, y, 10));
    lemma_cancel(",\"argv\":"@, invocation_from(a, x, 11), invocation_from(b, y, 11));
    lemma_text_list(a.argv, invocation_from(a, x, 12), b.argv, invocation_from(b, y, 12));
    lemma_cancel(",\"retry_of\":"@, invocation_from(a, x, 13), invocation_from(b, y, 13));
    lemma_optional_string(a.retry_of, invocation_from(a, x, 14), b.retry_of, invocation_from(b, y, 14));
    lemma_cancel(",\"legacy_observer\":"@, invocation_from(a, x, 15), invocation_from(b, y, 15));
    lemma_optional_string(a.legacy_observer, invocation_from(a, x, 16), b.legacy_observer, invocation_from(b, y, 16));
    lemma_cancel("}"@, invocation_from(a, x, 17), invocation_from(b, y, 17));
}

/// Different invocations have different signed bytes: the ID, both machines and
/// their keys, the arguments, the retry link and the observer all count. So, as
/// long as no two of them share a digest, they are kept under different keys.
pub proof fn law_invocations_are_told_apart(a: InvocationModel, b: InvocationModel)
    ensures
        wire::invocation_message(a) == wire::invocation_message(b) <==> a == b,
{
    if wire::invocation_message(a) == wire::invocation_message(b) {
        let head = "Clix history v1\0"@ + "invocation"@ + "\0"@;
        let none = Seq::<char>::empty();
        text::lemma_utf8_injective(head + wire::invocation_json(a), head + wire::invocation_json(b));
        lemma_cancel(head, wire::invocation_json(a), wire::invocation_json(b));
        assert(wire::invocation_json(a) + none =~= wire::invocation_json(a));
        assert(wire::invocation_json(b) + none =~= wire::invocation_json(b));
        lemma_invocation(a, none, b, none);
    }
}

/// The parts of the text from `k` on, and what follows.
pub open spec fn print_fields_from(v: FingerprintModel, x: Seq<char>, k: int) -> Seq<char>
    decreases 5 - k,
{
    if k == 0 {
        "{\"hash\":"@ + print_fields_from(v, x, 1)
    } else if k == 1 {
        json::json_string_text(v.hash) + print_fields_from(v, x, 2)
    } else if k == 2 {
        ",\"mode\":"@ + print_fields_from(v, x, 3)
    } else if k == 3 {
        text::decimal(v.mode as nat) + print_fields_from(v, x, 4)
    } else if k == 4 {
        "}"@ + print_fields_from(v, x, 5)
    } else {
        x
    }
}

proof fn lemma_print_fields_parts(v: FingerprintModel, x: Seq<char>)
    ensures
        content::print_json(Some(v)) + x == print_fields_from(v, x, 0),
{
    let t5 = x;
    let t4 = "}"@ + t5;
    let t3 = text::decimal(v.mode as nat) + t4;
    let t2 = ",\"mode\":"@ + t3;
    let t1 = json::json_string_text(v.hash) + t2;
    let t0 = "{\"hash\":"@ + t1;
    let l0 = "{\"hash\":"@;
    let l1 = l0 + json::json_string_text(v.hash);
    let l2 = l1 + ",\"mode\":"@;
    let l3 = l2 + text::decimal(v.mode as nat);
    let l4 = l3 + "}"@;
    lemma_assoc(l3, "}"@, t5);
    lemma_assoc(l2, text::decimal(v.mode as nat), t4);
    lemma_assoc(l1, ",\"mode\":"@, t3);
    lemma_assoc(l0, json::json_string_text(v.hash), t2);
    reveal_with_fuel(print_fields_from, 6);
}

proof fn lemma_print_fields(a: FingerprintModel, x: Seq<char>, b: FingerprintModel, y: Seq<char>)
    requires
        content::print_json(Some(a)) + x == content::print_json(Some(b)) + y,
    ensures
        a == b,
        x == y,
{
    lemma_print_fields_parts(a, x);
    lemma_print_fields_parts(b, y);
    reveal_with_fuel(print_fields_from, 6);
    lemma_cancel("{\"hash\":"@, print_fields_from(a, x, 1), print_fields_from(b, y, 1));
    lemma_string(a.hash, print_fields_from(a, x, 2), b.hash, print_fields_from(b, y, 2));
    lemma_cancel(",\"mode\":"@, print_fields_from(a, x, 3), print_fields_from(b, y, 3));
    reveal_strlit("}");
    lemma_first("}"@, print_fields_from(a, x, 5));
    lemma_first("}"@, print_fields_from(b, y, 5));
    lemma_number(a.mode as nat, print_fields_from(a, x, 4), b.mode as nat, print_fields_from(b, y, 4));
    lemma_cancel("}"@, print_fields_from(a, x, 5), print_fields_from(b, y, 5));
}

proof fn lemma_print(
    a: Option<FingerprintModel>,
    x: Seq<char>,
    b: Option<FingerprintModel>,
    y: Seq<char>,
)
    requires
        content::print_json(a) + x == content::print_json(b) + y,
    ensures
        a == b,
        x == y,
{
    reveal_strlit("null");
    reveal_strlit("{\"hash\":");
    if let Some(p) = a {
        lemma_print_fields_parts(p, x);
        lemma_first("{\"hash\":"@, print_fields_from(p, x, 1));
    } else {
        lemma_first("null"@, x);
    }
    if let Some(p) = b {
        lemma_print_fields_parts(p, y);
        lemma_first("{\"hash\":"@, print_fields_from(p, y, 1));
    } else {
        lemma_first("null"@, y);
    }
    if a is Some {
        lemma_print_fields(a->0, x, b->0, y);
    } else {
        lemma_cancel("null"@, x, y);
    }
}

/// The parts of the text from `k` on, and what follows.
pub open spec fn version_fields_from(v: RecoveryVersionModel, x: Seq<char>, k: int) -> Seq<char>
    decreases 17 - k,
{
    if k == 0 {
        "{\"fingerprint\":"@ + version_fields_from(v, x, 1)
    } else if k == 1 {
        content::print_json(Some(v.fingerprint)) + version_fields_from(v, x, 2)
    } else if k == 2 {
        ",\"bytes\":"@ + version_fields_from(v, x, 3)
    } else if k == 3 {
        text::decimal(v.bytes as nat) + version_fields_from(v, x, 4)
    } else if k == 4 {
        ",\"device\":"@ + version_fields_from(v, x, 5)
    } else if k == 5 {
        text::decimal(v.device as nat) + version_fields_from(v, x, 6)
    } else if k == 6 {
        ",\"inode\":"@ + version_fields_from(v, x, 7)
    } else if k == 7 {
        text::decimal(v.inode as nat) + version_fields_from(v, x, 8)
    } else if k == 8 {
        ",\"modified_seconds\":"@ + version_fields_from(v, x, 9)
    } else if k == 9 {
        text::signed_decimal(v.modified_seconds as int) + version_fields_from(v, x, 10)
    } else if k == 10 {
        ",\"modified_nanoseconds\":"@ + version_fields_from(v, x, 11)
    } else if k == 11 {
        text::signed_decimal(v.modified_nanoseconds as int) + version_fields_from(v, x, 12)
    } else if k == 12 {
        ",\"changed_seconds\":"@ + version_fields_from(v, x, 13)
    } else if k == 13 {
        text::signed_decimal(v.changed_seconds as int) + version_fields_from(v, x, 14)
    } else if k == 14 {
        ",\"changed_nanoseconds\":"@ + version_fields_from(v, x, 15)
    } else if k == 15 {
        text::signed_decimal(v.changed_nanoseconds as int) + version_fields_from(v, x, 16)
    } else if k == 16 {
        "}"@ + version_fields_from(v, x, 17)
    } else {
        x
    }
}

proof fn lemma_version_fields_parts(v: RecoveryVersionModel, x: Seq<char>)
    ensures
        content::version_json(Some(v)) + x == version_fields_from(v, x, 0),
{
    let t17 = x;
    let t16 = "}"@ + t17;
    let t15 = text::signed_decimal(v.changed_nanoseconds as int) + t16;
    let t14 = ",\"changed_nanoseconds\":"@ + t15;
    let t13 = text::signed_decimal(v.changed_seconds as int) + t14;
    let t12 = ",\"changed_seconds\":"@ + t13;
    let t11 = text::signed_decimal(v.modified_nanoseconds as int) + t12;
    let t10 = ",\"modified_nanoseconds\":"@ + t11;
    let t9 = text::signed_decimal(v.modified_seconds as int) + t10;
    let t8 = ",\"modified_seconds\":"@ + t9;
    let t7 = text::decimal(v.inode as nat) + t8;
    let t6 = ",\"inode\":"@ + t7;
    let t5 = text::decimal(v.device as nat) + t6;
    let t4 = ",\"device\":"@ + t5;
    let t3 = text::decimal(v.bytes as nat) + t4;
    let t2 = ",\"bytes\":"@ + t3;
    let t1 = content::print_json(Some(v.fingerprint)) + t2;
    let t0 = "{\"fingerprint\":"@ + t1;
    let l0 = "{\"fingerprint\":"@;
    let l1 = l0 + content::print_json(Some(v.fingerprint));
    let l2 = l1 + ",\"bytes\":"@;
    let l3 = l2 + text::decimal(v.bytes as nat);
    let l4 = l3 + ",\"device\":"@;
    let l5 = l4 + text::decimal(v.device as nat);
    let l6 = l5 + ",\"inode\":"@;
    let l7 = l6 + text::decimal(v.inode as nat);
    let l8 = l7 + ",\"modified_seconds\":"@;
    let l9 = l8 + text::signed_decimal(v.modified_seconds as int);
    let l10 = l9 + ",\"modified_nanoseconds\":"@;
    let l11 = l10 + text::signed_decimal(v.modified_nanoseconds as int);
    let l12 = l11 + ",\"changed_seconds\":"@;
    let l13 = l12 + text::signed_decimal(v.changed_seconds as int);
    let l14 = l13 + ",\"changed_nanoseconds\":"@;
    let l15 = l14 + text::signed_decimal(v.changed_nanoseconds as int);
    let l16 = l15 + "}"@;
    lemma_assoc(l15, "}"@, t17);
    lemma_assoc(l14, text::signed_decimal(v.changed_nanoseconds as int), t16);
    lemma_assoc(l13, ",\"changed_nanoseconds\":"@, t15);
    lemma_assoc(l12, text::signed_decimal(v.changed_seconds as int), t14);
    lemma_assoc(l11, ",\"changed_seconds\":"@, t13);
    lemma_assoc(l10, text::signed_decimal(v.modified_nanoseconds as int), t12);
    lemma_assoc(l9, ",\"modified_nanoseconds\":"@, t11);
    lemma_assoc(l8, text::signed_decimal(v.modified_seconds as int), t10);
    lemma_assoc(l7, ",\"modified_seconds\":"@, t9);
    lemma_assoc(l6, text::decimal(v.inode as nat), t8);
    lemma_assoc(l5, ",\"inode\":"@, t7);
    lemma_assoc(l4, text::decimal(v.device as nat), t6);
    lemma_assoc(l3, ",\"device\":"@, t5);
    lemma_assoc(l2, text::decimal(v.bytes as nat), t4);
    lemma_assoc(l1, ",\"bytes\":"@, t3);
    lemma_assoc(l0, content::print_json(Some(v.fingerprint)), t2);
    reveal_with_fuel(version_fields_from, 18);
}

proof fn lemma_version_fields(a: RecoveryVersionModel, x: Seq<char>, b: RecoveryVersionModel, y: Seq<char>)
    requires
        content::version_json(Some(a)) + x == content::version_json(Some(b)) + y,
    ensures
        a == b,
        x == y,
{
    lemma_version_fields_parts(a, x);
    lemma_version_fields_parts(b, y);
    reveal_with_fuel(version_fields_from, 18);
    lemma_cancel("{\"fingerprint\":"@, version_fields_from(a, x, 1), version_fields_from(b, y, 1));
    lemma_print(Some(a.fingerprint), version_fields_from(a, x, 2), Some(b.fingerprint), version_fields_from(b, y, 2));
    lemma_cancel(",\"bytes\":"@, version_fields_from(a, x, 3), version_fields_from(b, y, 3));
    reveal_strlit(",\"device\":");
    lemma_first(",\"device\":"@, version_fields_from(a, x, 5));
    lemma_first(",\"device\":"@, version_fields_from(b, y, 5));
    lemma_number(a.bytes as nat, version_fields_from(a, x, 4), b.bytes as nat, version_fields_from(b, y, 4));
    lemma_cancel(",\"device\":"@, version_fields_from(a, x, 5), version_fields_from(b, y, 5));
    reveal_strlit(",\"inode\":");
    lemma_first(",\"inode\":"@, version_fields_from(a, x, 7));
    lemma_first(",\"inode\":"@, version_fields_from(b, y, 7));
    lemma_number(a.device as nat, version_fields_from(a, x, 6), b.device as nat, version_fields_from(b, y, 6));
    lemma_cancel(",\"inode\":"@, version_fields_from(a, x, 7), version_fields_from(b, y, 7));
    reveal_strlit(",\"modified_seconds\":");
    lemma_first(",\"modified_seconds\":"@, version_fields_from(a, x, 9));
    lemma_first(",\"modified_seconds\":"@, version_fields_from(b, y, 9));
    lemma_number(a.inode as nat, version_fields_from(a, x, 8), b.inode as nat, version_fields_from(b, y, 8));
    lemma_cancel(",\"modified_seconds\":"@, version_fields_from(a, x, 9), version_fields_from(b, y, 9));
    reveal_strlit(",\"modified_nanoseconds\":");
    lemma_first(",\"modified_nanoseconds\":"@, version_fields_from(a, x, 11));
    lemma_first(",\"modified_nanoseconds\":"@, version_fields_from(b, y, 11));
    lemma_signed(a.modified_seconds as int, version_fields_from(a, x, 10), b.modified_seconds as int, version_fields_from(b, y, 10));
    lemma_cancel(",\"modified_nanoseconds\":"@, version_fields_from(a, x, 11), version_fields_from(b, y, 11));
    reveal_strlit(",\"changed_seconds\":");
    lemma_first(",\"changed_seconds\":"@, version_fields_from(a, x, 13));
    lemma_first(",\"changed_seconds\":"@, version_fields_from(b, y, 13));
    lemma_signed(a.modified_nanoseconds as int, version_fields_from(a, x, 12), b.modified_nanoseconds as int, version_fields_from(b, y, 12));
    lemma_cancel(",\"changed_seconds\":"@, version_fields_from(a, x, 13), version_fields_from(b, y, 13));
    reveal_strlit(",\"changed_nanoseconds\":");
    lemma_first(",\"changed_nanoseconds\":"@, version_fields_from(a, x, 15));
    lemma_first(",\"changed_nanoseconds\":"@, version_fields_from(b, y, 15));
    lemma_signed(a.changed_seconds as int, version_fields_from(a, x, 14), b.changed_seconds as int, version_fields_from(b, y, 14));
    lemma_cancel(",\"changed_nanoseconds\":"@, version_fields_from(a, x, 15), version_fields_from(b, y, 15));
    reveal_strlit("}");
    lemma_first("}"@, version_fields_from(a, x, 17));
    lemma_first("}"@, version_fields_from(b, y, 17));
    lemma_signed(a.changed_nanoseconds as int, version_fields_from(a, x, 16), b.changed_nanoseconds as int, version_fields_from(b, y, 16));
    lemma_cancel("}"@, version_fields_from(a, x, 17), version_fields_from(b, y, 17));
}

proof fn lemma_version(
    a: Option<RecoveryVersionModel>,
    x: Seq<char>,
    b: Option<RecoveryVersionModel>,
    y: Seq<char>,
)
    requires
        content::version_json(a) + x == content::version_json(b) + y,
    ensures
        a == b,
        x == y,
{
    reveal_strlit("null");
    reveal_strlit("{\"fingerprint\":");
    if let Some(p) = a {
        lemma_version_fields_parts(p, x);
        lemma_first("{\"fingerprint\":"@, version_fields_from(p, x, 1));
    } else {
        lemma_first("null"@, x);
    }
    if let Some(p) = b {
        lemma_version_fields_parts(p, y);
        lemma_first("{\"fingerprint\":"@, version_fields_from(p, y, 1));
    } else {
        lemma_first("null"@, y);
    }
    if a is Some {
        lemma_version_fields(a->0, x, b->0, y);
    } else {
        lemma_cancel("null"@, x, y);
    }
}

proof fn lemma_state(a: RecoveryState, x: Seq<char>, b: RecoveryState, y: Seq<char>)
    requires
        content::state_word(a) + x == content::state_word(b) + y,
    ensures
        a == b,
        x == y,
{
    reveal_strlit("pending");
    reveal_strlit("retained");
    reveal_strlit("resolved");
    reveal_strlit("discarding");
    let p = content::state_word(a);
    let q = content::state_word(b);
    assert((p + x)[0] == p[0] && (q + y)[0] == q[0]);
    assert((p + x)[2] == p[2] && (q + y)[2] == q[2]);
    lemma_cancel(p, x, y);
}

/// The optional end of a receipt.
pub open spec fn receipt_end(r: RecoveryReceiptModel, x: Seq<char>) -> Seq<char> {
    content::optional_field("source_receipt"@, r.source_receipt) + (content::optional_field(
        "discard_token"@,
        r.discard_token,
    ) + ("}"@ + x))
}

proof fn lemma_field(name: Seq<char>, value: Seq<char>, x: Seq<char>)
    ensures
        content::optional_field(name, Some(value)) + x == ",\""@ + (name + ("\":"@ + (json::json_string_text(
            value,
        ) + x))),
{
    let s = json::json_string_text(value);
    lemma_assoc(",\""@ + name + "\":"@, s, x);
    lemma_assoc(",\""@ + name, "\":"@, s + x);
    lemma_assoc(",\""@, name, "\":"@ + (s + x));
}

proof fn lemma_discard_end(
    a: Option<Seq<char>>,
    x: Seq<char>,
    b: Option<Seq<char>>,
    y: Seq<char>,
)
    requires
        content::optional_field("discard_token"@, a) + ("}"@ + x) == content::optional_field(
            "discard_token"@,
            b,
        ) + ("}"@ + y),
    ensures
        a == b,
        x == y,
{
    let name = "discard_token"@;
    reveal_strlit("discard_token");
    lemma_field_first(name, a, x);
    lemma_field_first(name, b, y);
    reveal_strlit("");
    if a is Some {
        lemma_field(name, a->0, "}"@ + x);
        lemma_field(name, b->0, "}"@ + y);
        let s = json::json_string_text(a->0) + ("}"@ + x);
        let t = json::json_string_text(b->0) + ("}"@ + y);
        lemma_cancel(",\""@, name + ("\":"@ + s), name + ("\":"@ + t));
        lemma_cancel(name, "\":"@ + s, "\":"@ + t);
        lemma_cancel("\":"@, s, t);
        lemma_string(a->0, "}"@ + x, b->0, "}"@ + y);
    } else {
        assert(""@ + ("}"@ + x) =~= "}"@ + x);
        assert(""@ + ("}"@ + y) =~= "}"@ + y);
    }
    lemma_cancel("}"@, x, y);
}

/// How an optional field at the end of an object starts, or the end itself.
proof fn lemma_field_first(name: Seq<char>, value: Option<Seq<char>>, x: Seq<char>)
    requires
        name.len() > 0,
    ensures
        (content::optional_field(name, value) + ("}"@ + x)).len() > 0,
        (content::optional_field(name, value) + ("}"@ + x))[0] == if value is Some {
            ','
        } else {
            '}'
        },
        value is Some ==> (content::optional_field(name, value) + ("}"@ + x)).len() > 2 && (
        content::optional_field(name, value) + ("}"@ + x))[2] == name[0],
{
    reveal_strlit("");
    reveal_strlit("}");
    reveal_strlit(",\"");
    if let Some(text) = value {
        lemma_field(name, text, "}"@ + x);
        let rest = "\":"@ + (json::json_string_text(text) + ("}"@ + x));
        assert((",\""@ + (name + rest))[2] == name[0]);
    } else {
        assert(""@ + ("}"@ + x) =~= "}"@ + x);
    }
}

proof fn lemma_receipt_end(a: RecoveryReceiptModel, x: Seq<char>, b: RecoveryReceiptModel, y: Seq<char>)
    requires
        receipt_end(a, x) == receipt_end(b, y),
    ensures
        a.source_receipt == b.source_receipt,
        a.discard_token == b.discard_token,
        x == y,
{
    let name = "source_receipt"@;
    let p = content::optional_field("discard_token"@, a.discard_token) + ("}"@ + x);
    let q = content::optional_field("discard_token"@, b.discard_token) + ("}"@ + y);
    reveal_strlit("source_receipt");
    reveal_strlit("discard_token");
    reveal_strlit("");
    reveal_strlit(",\"");
    lemma_field_first("discard_token"@, a.discard_token, x);
    lemma_field_first("discard_token"@, b.discard_token, y);
    if let Some(s) = a.source_receipt {
        lemma_field(name, s, p);
        assert((",\""@ + (name + ("\":"@ + (json::json_string_text(s) + p))))[0] == ',');
        assert((",\""@ + (name + ("\":"@ + (json::json_string_text(s) + p))))[2] == name[0]);
    } else {
        assert(""@ + p =~= p);
    }
    if let Some(s) = b.source_receipt {
        lemma_field(name, s, q);
        assert((",\""@ + (name + ("\":"@ + (json::json_string_text(s) + q))))[0] == ',');
        assert((",\""@ + (name + ("\":"@ + (json::json_string_text(s) + q))))[2] == name[0]);
    } else {
        assert(""@ + q =~= q);
    }
    assert(a.source_receipt is Some <==> b.source_receipt is Some);
    if a.source_receipt is Some {
        let s = json::json_string_text(a.source_receipt->0) + p;
        let t = json::json_string_text(b.source_receipt->0) + q;
        lemma_cancel(",\""@, name + ("\":"@ + s), name + ("\":"@ + t));
        lemma_cancel(name, "\":"@ + s, "\":"@ + t);
        lemma_cancel("\":"@, s, t);
        lemma_string(a.source_receipt->0, p, b.source_receipt->0, q);
    }
    lemma_discard_end(a.discard_token, x, b.discard_token, y);
}

/// What records of one job have in common: its ID, both machines, the arguments
/// and the retry link.
pub type Grouped = (Seq<char>, Seq<char>, Seq<char>, Seq<Seq<char>>, Option<Seq<char>>);

/// The text that records of one job are grouped by.
pub open spec fn group_text(v: Grouped) -> Seq<char> {
    "["@ + json::json_string_text(v.0) + ","@ + json::json_string_text(v.1) + ","@
        + json::json_string_text(v.2) + ","@ + json::json_list(json::text_items(v.3)) + ","@
        + json::json_optional_text(v.4) + "]"@
}

/// The parts of the text from `k` on, and what follows.
pub open spec fn group_from(v: Grouped, x: Seq<char>, k: int) -> Seq<char>
    decreases 11 - k,
{
    if k == 0 {
        "["@ + group_from(v, x, 1)
    } else if k == 1 {
        json::json_string_text(v.0) + group_from(v, x, 2)
    } else if k == 2 {
        ","@ + group_from(v, x, 3)
    } else if k == 3 {
        json::json_string_text(v.1) + group_from(v, x, 4)
    } else if k == 4 {
        ","@ + group_from(v, x, 5)
    } else if k == 5 {
        json::json_string_text(v.2) + group_from(v, x, 6)
    } else if k == 6 {
        ","@ + group_from(v, x, 7)
    } else if k == 7 {
        json::json_list(json::text_items(v.3)) + group_from(v, x, 8)
    } else if k == 8 {
        ","@ + group_from(v, x, 9)
    } else if k == 9 {
        json::json_optional_text(v.4) + group_from(v, x, 10)
    } else if k == 10 {
        "]"@ + group_from(v, x, 11)
    } else {
        x
    }
}

proof fn lemma_group_parts(v: Grouped, x: Seq<char>)
    ensures
        group_text(v) + x == group_from(v, x, 0),
{
    let t11 = x;
    let t10 = "]"@ + t11;
    let t9 = json::json_optional_text(v.4) + t10;
    let t8 = ","@ + t9;
    let t7 = json::json_list(json::text_items(v.3)) + t8;
    let t6 = ","@ + t7;
    let t5 = json::json_string_text(v.2) + t6;
    let t4 = ","@ + t5;
    let t3 = json::json_string_text(v.1) + t4;
    let t2 = ","@ + t3;
    let t1 = json::json_string_text(v.0) + t2;
    let t0 = "["@ + t1;
    let l0 = "["@;
    let l1 = l0 + json::json_string_text(v.0);
    let l2 = l1 + ","@;
    let l3 = l2 + json::json_string_text(v.1);
    let l4 = l3 + ","@;
    let l5 = l4 + json::json_string_text(v.2);
    let l6 = l5 + ","@;
    let l7 = l6 + json::json_list(json::text_items(v.3));
    let l8 = l7 + ","@;
    let l9 = l8 + json::json_optional_text(v.4);
    let l10 = l9 + "]"@;
    lemma_assoc(l9, "]"@, t11);
    lemma_assoc(l8, json::json_optional_text(v.4), t10);
    lemma_assoc(l7, ","@, t9);
    lemma_assoc(l6, json::json_list(json::text_items(v.3)), t8);
    lemma_assoc(l5, ","@, t7);
    lemma_assoc(l4, json::json_string_text(v.2), t6);
    lemma_assoc(l3, ","@, t5);
    lemma_assoc(l2, json::json_string_text(v.1), t4);
    lemma_assoc(l1, ","@, t3);
    lemma_assoc(l0, json::json_string_text(v.0), t2);
    reveal_with_fuel(group_from, 12);
}

proof fn lemma_group(a: Grouped, x: Seq<char>, b: Grouped, y: Seq<char>)
    requires
        group_text(a) + x == group_text(b) + y,
    ensures
        a == b,
        x == y,
{
    lemma_group_parts(a, x);
    lemma_group_parts(b, y);
    reveal_with_fuel(group_from, 12);
    lemma_cancel("["@, group_from(a, x, 1), group_from(b, y, 1));
    lemma_string(a.0, group_from(a, x, 2), b.0, group_from(b, y, 2));
    lemma_cancel(","@, group_from(a, x, 3), group_from(b, y, 3));
    lemma_string(a.1, group_from(a, x, 4), b.1, group_from(b, y, 4));
    lemma_cancel(","@, group_from(a, x, 5), group_from(b, y, 5));
    lemma_string(a.2, group_from(a, x, 6), b.2, group_from(b, y, 6));
    lemma_cancel(","@, group_from(a, x, 7), group_from(b, y, 7));
    lemma_text_list(a.3, group_from(a, x, 8), b.3, group_from(b, y, 8));
    lemma_cancel(","@, group_from(a, x, 9), group_from(b, y, 9));
    lemma_optional_string(a.4, group_from(a, x, 10), b.4, group_from(b, y, 10));
    lemma_cancel("]"@, group_from(a, x, 11), group_from(b, y, 11));
}

/// Records of different jobs are never grouped together.
pub proof fn law_groups_are_told_apart(a: Grouped, b: Grouped)
    ensures
        group_text(a) == group_text(b) <==> a == b,
{
    if group_text(a) == group_text(b) {
        let none = Seq::<char>::empty();
        lemma_group(a, none, b, none);
    }
}

/// The parts of the text from `k` on, and what follows.
pub open spec fn receipt_fields_from(v: RecoveryReceiptModel, x: Seq<char>, k: int) -> Seq<char>
    decreases 11 - k,
{
    if k == 0 {
        "{\"path\":"@ + receipt_fields_from(v, x, 1)
    } else if k == 1 {
        json::json_string_text(v.path) + receipt_fields_from(v, x, 2)
    } else if k == 2 {
        ",\"expected\":"@ + receipt_fields_from(v, x, 3)
    } else if k == 3 {
        content::print_json(v.expected) + receipt_fields_from(v, x, 4)
    } else if k == 4 {
        ",\"replacement\":"@ + receipt_fields_from(v, x, 5)
    } else if k == 5 {
        content::print_json(v.replacement) + receipt_fields_from(v, x, 6)
    } else if k == 6 {
        ",\"version\":"@ + receipt_fields_from(v, x, 7)
    } else if k == 7 {
        json::json_string_text(v.version) + receipt_fields_from(v, x, 8)
    } else if k == 8 {
        ",\"state\":\""@ + receipt_fields_from(v, x, 9)
    } else if k == 9 {
        content::state_word(v.state) + receipt_fields_from(v, x, 10)
    } else if k == 10 {
        "\""@ + receipt_fields_from(v, x, 11)
    } else {
        x
    }
}

proof fn lemma_receipt_fields_parts(v: RecoveryReceiptModel, x: Seq<char>)
    ensures
        receipt_head(v) + x == receipt_fields_from(v, x, 0),
{
    let t11 = x;
    let t10 = "\""@ + t11;
    let t9 = content::state_word(v.state) + t10;
    let t8 = ",\"state\":\""@ + t9;
    let t7 = json::json_string_text(v.version) + t8;
    let t6 = ",\"version\":"@ + t7;
    let t5 = content::print_json(v.replacement) + t6;
    let t4 = ",\"replacement\":"@ + t5;
    let t3 = content::print_json(v.expected) + t4;
    let t2 = ",\"expected\":"@ + t3;
    let t1 = json::json_string_text(v.path) + t2;
    let t0 = "{\"path\":"@ + t1;
    let l0 = "{\"path\":"@;
    let l1 = l0 + json::json_string_text(v.path);
    let l2 = l1 + ",\"expected\":"@;
    let l3 = l2 + content::print_json(v.expected);
    let l4 = l3 + ",\"replacement\":"@;
    let l5 = l4 + content::print_json(v.replacement);
    let l6 = l5 + ",\"version\":"@;
    let l7 = l6 + json::json_string_text(v.version);
    let l8 = l7 + ",\"state\":\""@;
    let l9 = l8 + content::state_word(v.state);
    let l10 = l9 + "\""@;
    lemma_assoc(l9, "\""@, t11);
    lemma_assoc(l8, content::state_word(v.state), t10);
    lemma_assoc(l7, ",\"state\":\""@, t9);
    lemma_assoc(l6, json::json_string_text(v.version), t8);
    lemma_assoc(l5, ",\"version\":"@, t7);
    lemma_assoc(l4, content::print_json(v.replacement), t6);
    lemma_assoc(l3, ",\"replacement\":"@, t5);
    lemma_assoc(l2, content::print_json(v.expected), t4);
    lemma_assoc(l1, ",\"expected\":"@, t3);
    lemma_assoc(l0, json::json_string_text(v.path), t2);
    reveal_with_fuel(receipt_fields_from, 12);
}

proof fn lemma_receipt_fields(a: RecoveryReceiptModel, x: Seq<char>, b: RecoveryReceiptModel, y: Seq<char>)
    requires
        receipt_head(a) + x == receipt_head(b) + y,
    ensures
        a.path == b.path,
        a.expected == b.expected,
        a.replacement == b.replacement,
        a.version == b.version,
        a.state == b.state,
        x == y,
{
    lemma_receipt_fields_parts(a, x);
    lemma_receipt_fields_parts(b, y);
    reveal_with_fuel(receipt_fields_from, 12);
    lemma_cancel("{\"path\":"@, receipt_fields_from(a, x, 1), receipt_fields_from(b, y, 1));
    lemma_string(a.path, receipt_fields_from(a, x, 2), b.path, receipt_fields_from(b, y, 2));
    lemma_cancel(",\"expected\":"@, receipt_fields_from(a, x, 3), receipt_fields_from(b, y, 3));
    lemma_print(a.expected, receipt_fields_from(a, x, 4), b.expected, receipt_fields_from(b, y, 4));
    lemma_cancel(",\"replacement\":"@, receipt_fields_from(a, x, 5), receipt_fields_from(b, y, 5));
    lemma_print(a.replacement, receipt_fields_from(a, x, 6), b.replacement, receipt_fields_from(b, y, 6));
    lemma_cancel(",\"version\":"@, receipt_fields_from(a, x, 7), receipt_fields_from(b, y, 7));
    lemma_string(a.version, receipt_fields_from(a, x, 8), b.version, receipt_fields_from(b, y, 8));
    lemma_cancel(",\"state\":\""@, receipt_fields_from(a, x, 9), receipt_fields_from(b, y, 9));
    lemma_state(a.state, receipt_fields_from(a, x, 10), b.state, receipt_fields_from(b, y, 10));
    lemma_cancel("\""@, receipt_fields_from(a, x, 11), receipt_fields_from(b, y, 11));
}

/// A receipt without its optional end.
pub open spec fn receipt_head(r: RecoveryReceiptModel) -> Seq<char> {
    "{\"path\":"@ + json::json_string_text(r.path) + ",\"expected\":"@ + content::print_json(r.expected)
        + ",\"replacement\":"@ + content::print_json(r.replacement) + ",\"version\":"@
        + json::json_string_text(r.version) + ",\"state\":\""@ + content::state_word(r.state) + "\""@
}

proof fn lemma_receipt_split(r: RecoveryReceiptModel, x: Seq<char>)
    ensures
        content::receipt_json(r) + x == receipt_head(r) + receipt_end(r, x),
{
    let h = receipt_head(r);
    let s = content::optional_field("source_receipt"@, r.source_receipt);
    let d = content::optional_field("discard_token"@, r.discard_token);
    lemma_assoc(h + s + d, "}"@, x);
    lemma_assoc(h + s, d, "}"@ + x);
    lemma_assoc(h, s, d + ("}"@ + x));
}

proof fn lemma_receipt(a: RecoveryReceiptModel, x: Seq<char>, b: RecoveryReceiptModel, y: Seq<char>)
    requires
        content::receipt_json(a) + x == content::receipt_json(b) + y,
    ensures
        a == b,
        x == y,
{
    lemma_receipt_split(a, x);
    lemma_receipt_split(b, y);
    lemma_receipt_fields(a, receipt_end(a, x), b, receipt_end(b, y));
    lemma_receipt_end(a, x, b, y);
}

/// What an inspection is about: the receipt, both versions, and the name.
pub type Inspected = (
    RecoveryReceiptModel,
    Option<RecoveryVersionModel>,
    Option<RecoveryVersionModel>,
    Seq<char>,
);

/// The parts of the text from `k` on, and what follows.
pub open spec fn inspected_from(v: Inspected, x: Seq<char>, k: int) -> Seq<char>
    decreases 9 - k,
{
    if k == 0 {
        "["@ + inspected_from(v, x, 1)
    } else if k == 1 {
        content::receipt_json(v.0) + inspected_from(v, x, 2)
    } else if k == 2 {
        ","@ + inspected_from(v, x, 3)
    } else if k == 3 {
        content::version_json(v.1) + inspected_from(v, x, 4)
    } else if k == 4 {
        ","@ + inspected_from(v, x, 5)
    } else if k == 5 {
        content::version_json(v.2) + inspected_from(v, x, 6)
    } else if k == 6 {
        ","@ + inspected_from(v, x, 7)
    } else if k == 7 {
        json::json_string_text(v.3) + inspected_from(v, x, 8)
    } else if k == 8 {
        "]"@ + inspected_from(v, x, 9)
    } else {
        x
    }
}

proof fn lemma_inspected_parts(v: Inspected, x: Seq<char>)
    ensures
        inspect::inspection_text(v.0, v.1, v.2, v.3) + x == inspected_from(v, x, 0),
{
    let t9 = x;
    let t8 = "]"@ + t9;
    let t7 = json::json_string_text(v.3) + t8;
    let t6 = ","@ + t7;
    let t5 = content::version_json(v.2) + t6;
    let t4 = ","@ + t5;
    let t3 = content::version_json(v.1) + t4;
    let t2 = ","@ + t3;
    let t1 = content::receipt_json(v.0) + t2;
    let t0 = "["@ + t1;
    let l0 = "["@;
    let l1 = l0 + content::receipt_json(v.0);
    let l2 = l1 + ","@;
    let l3 = l2 + content::version_json(v.1);
    let l4 = l3 + ","@;
    let l5 = l4 + content::version_json(v.2);
    let l6 = l5 + ","@;
    let l7 = l6 + json::json_string_text(v.3);
    let l8 = l7 + "]"@;
    lemma_assoc(l7, "]"@, t9);
    lemma_assoc(l6, json::json_string_text(v.3), t8);
    lemma_assoc(l5, ","@, t7);
    lemma_assoc(l4, content::version_json(v.2), t6);
    lemma_assoc(l3, ","@, t5);
    lemma_assoc(l2, content::version_json(v.1), t4);
    lemma_assoc(l1, ","@, t3);
    lemma_assoc(l0, content::receipt_json(v.0), t2);
    reveal_with_fuel(inspected_from, 10);
}

proof fn lemma_inspected(a: Inspected, x: Seq<char>, b: Inspected, y: Seq<char>)
    requires
        inspect::inspection_text(a.0, a.1, a.2, a.3) + x == inspect::inspection_text(b.0, b.1, b.2, b.3) + y,
    ensures
        a == b,
        x == y,
{
    lemma_inspected_parts(a, x);
    lemma_inspected_parts(b, y);
    reveal_with_fuel(inspected_from, 10);
    lemma_cancel("["@, inspected_from(a, x, 1), inspected_from(b, y, 1));
    lemma_receipt(a.0, inspected_from(a, x, 2), b.0, inspected_from(b, y, 2));
    lemma_cancel(","@, inspected_from(a, x, 3), inspected_from(b, y, 3));
    lemma_version(a.1, inspected_from(a, x, 4), b.1, inspected_from(b, y, 4));
    lemma_cancel(","@, inspected_from(a, x, 5), inspected_from(b, y, 5));
    lemma_version(a.2, inspected_from(a, x, 6), b.2, inspected_from(b, y, 6));
    lemma_cancel(","@, inspected_from(a, x, 7), inspected_from(b, y, 7));
    lemma_string(a.3, inspected_from(a, x, 8), b.3, inspected_from(b, y, 8));
    lemma_cancel("]"@, inspected_from(a, x, 9), inspected_from(b, y, 9));
}

/// Inspections that differ in anything, be it the receipt, the content, mode,
/// size, inode or times of a version, or its presence, have different texts under
/// their tokens; those that do not have the same token.
pub proof fn law_inspections_are_told_apart(a: Inspected, b: Inspected)
    ensures
        vstd::utf8::encode_utf8(inspect::inspection_text(a.0, a.1, a.2, a.3))
            == vstd::utf8::encode_utf8(inspect::inspection_text(b.0, b.1, b.2, b.3)) <==> a == b,
        a == b ==> inspect::inspection_token(a.0, a.1, a.2, a.3) == inspect::inspection_token(
            b.0,
            b.1,
            b.2,
            b.3,
        ),
{
    let p = inspect::inspection_text(a.0, a.1, a.2, a.3);
    let q = inspect::inspection_text(b.0, b.1, b.2, b.3);
    if vstd::utf8::encode_utf8(p) == vstd::utf8::encode_utf8(q) {
        let none = Seq::<char>::empty();
        text::lemma_utf8_injective(p, q);
        assert(p + none =~= p);
        assert(q + none =~= q);
        lemma_inspected(a, none, b, none);
    }
}

/// No two texts under these tokens share a digest.
pub open spec fn apart(a: Seq<u8>, b: Seq<u8>) -> bool {
    crypto::sha256_digest(a) == crypto::sha256_digest(b) ==> a == b
}

/// A token serves one decision. Once a resolution of a receipt that was pending or
/// retained is recorded, whatever is then found of its versions has another token,
/// and the old one is refused, for resolving, discarding and reading alike.
pub proof fn law_token_is_spent(
    s: StoreModel,
    before: RecoveryInspectionModel,
    after: RecoveryInspectionModel,
    choice: RecoveryChoice,
    next: RecoveryChoice,
    live: Option<RecoveryVersionModel>,
    retained: Option<RecoveryVersionModel>,
    view: RecoveryInspectionModel,
    fresh_id: Seq<char>,
)
    requires
        before.recorded,
        before.token == inspect::inspection_token(
            before.receipt,
            before.live,
            before.retained,
            before.id,
        ),
        before.receipt.state == RecoveryState::Pending || before.receipt.state
            == RecoveryState::Retained,
        decide::resolved(before, after, choice) matches Ok(receipt) && view.receipt == receipt,
        view.id == before.id,
        view.live == live,
        view.retained == retained,
        view.token == inspect::inspection_token(view.receipt, live, retained, view.id),
        apart(
            vstd::utf8::encode_utf8(
                inspect::inspection_text(before.receipt, before.live, before.retained, before.id),
            ),
            vstd::utf8::encode_utf8(
                inspect::inspection_text(view.receipt, live, retained, view.id),
            ),
        ),
        s.write_error is None,
    ensures
        view.token != before.token,
        decide::resolution(s, view, before.token, next) == Err::<
            Option<crate::pin::record::ChangeModel>,
            ErrorModel,
        >(decide::stale()),
        decide::discard_outcome(s, view, view.id, before.token, fresh_id) == Err::<
            (Seq<char>, RecoveryReceiptModel),
            ErrorModel,
        >(decide::stale()),
        decide::read_outcome(view, crate::pin::record::RecoveryRead::Retained, before.token) == Err::<
            (),
            ErrorModel,
        >(decide::stale()),
{
    let a: Inspected = (before.receipt, before.live, before.retained, before.id);
    let b: Inspected = (view.receipt, live, retained, view.id);
    law_inspections_are_told_apart(a, b);
    let p = vstd::utf8::encode_utf8(inspect::inspection_text(a.0, a.1, a.2, a.3));
    let q = vstd::utf8::encode_utf8(inspect::inspection_text(b.0, b.1, b.2, b.3));
    if view.token == before.token {
        lemma_hex(crypto::sha256_digest(p), crypto::sha256_digest(q));
        assert(false);
    }
}

/// Hexadecimal digits say which bytes they are.
proof fn lemma_hex(a: Seq<u8>, b: Seq<u8>)
    requires
        text::hex(a) == text::hex(b),
    ensures
        a == b,
{
    let p = text::hex(a);
    let q = text::hex(b);
    assert(p.len() == 2 * a.len() && q.len() == 2 * b.len());
    assert forall|i: int| 0 <= i < a.len() implies a[i] == b[i] by {
        assert(p[2 * i] == q[2 * i]);
        assert(p[2 * i + 1] == q[2 * i + 1]);
        assert((2 * i) / 2 == i && (2 * i + 1) / 2 == i);
        assert((2 * i) % 2 == 0 && (2 * i + 1) % 2 == 1);
        assert(p[2 * i] == text::hex_digit(a[i] as int / 16));
        assert(q[2 * i] == text::hex_digit(b[i] as int / 16));
        assert(p[2 * i + 1] == text::hex_digit(a[i] as int % 16));
        assert(q[2 * i + 1] == text::hex_digit(b[i] as int % 16));
    }
    assert(a =~= b);
}

} // verus!
