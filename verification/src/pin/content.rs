//! Content of shared files: fingerprints, hexadecimal text and review tokens.

use vstd::prelude::*;
use vstd::string::*;
use vstd::utf8::*;

use crate::crypto;
use crate::crypto::hash;
use crate::error::{protocol, ErrorModel, Outcome, Result};
use crate::history::wire;
use crate::json;
use crate::json::json_string;
use crate::pin::record::{
    RecoveryReceipt, RecoveryReceiptModel, RecoveryState, RecoveryVersion, RecoveryVersionModel,
};
use crate::store::{Fingerprint, FingerprintModel};
use crate::text;
use crate::text::{cat3, decimal_text, owned};

verus! {

/// The largest file that pin copies.
pub const MAX_FILE: u64 = 16 * 1024 * 1024;

pub open spec fn print_of(bytes: Seq<u8>, mode: u32) -> FingerprintModel {
    FingerprintModel { hash: crypto::digest_text(bytes), mode }
}

pub fn fingerprint(bytes: &[u8], mode: u32) -> (print: Fingerprint)
    ensures
        print@ == print_of(bytes@, mode),
{
    Fingerprint { hash: hash(bytes), mode }
}

pub open spec fn nibble(c: u8) -> Option<u8> {
    if 48 <= c <= 57 {
        Some((c - 48) as u8)
    } else if 97 <= c <= 102 {
        Some((c - 87) as u8)
    } else if 65 <= c <= 70 {
        Some((c - 55) as u8)
    } else {
        None
    }
}

fn nibble_of(c: u8) -> (n: Option<u8>)
    ensures
        n == nibble(c),
        n matches Some(v) ==> v < 16,
{
    if 48 <= c && c <= 57 {
        Some(c - 48)
    } else if 97 <= c && c <= 102 {
        Some(c - 87)
    } else if 65 <= c && c <= 70 {
        Some(c - 55)
    } else {
        None
    }
}

/// Pairs of hexadecimal digits.
pub open spec fn hex_pairs(text: Seq<u8>) -> bool {
    text.len() % 2 == 0 && text.len() <= 2 * MAX_FILE && forall|i: int|
        0 <= i < text.len() ==> nibble(#[trigger] text[i]) is Some
}

pub open spec fn pairs_value(text: Seq<u8>) -> Seq<u8> {
    Seq::new(
        text.len() / 2,
        |i: int| (16 * nibble(text[2 * i])->0 + nibble(text[2 * i + 1])->0) as u8,
    )
}

pub open spec fn unhex_outcome(s: Seq<char>) -> Outcome<Seq<u8>> {
    let text = encode_utf8(s);
    if hex_pairs(text) {
        Ok(pairs_value(text))
    } else {
        Err(ErrorModel::Protocol("invalid pin content"@))
    }
}

pub fn unhex(s: &str) -> (result: Result<Vec<u8>>)
    ensures
        wire::bytes_outcome(result) == unhex_outcome(s@),
{
    let text = s.as_bytes();
    if text.len() % 2 != 0 || text.len() as u64 > MAX_FILE * 2 {
        return Err(protocol("invalid pin content"));
    }
    let mut bytes: Vec<u8> = Vec::new();
    let mut i: usize = 0;
    while i < text.len()
        invariant
            text@ == encode_utf8(s@),
            text@.len() % 2 == 0,
            text@.len() <= 2 * MAX_FILE,
            i % 2 == 0,
            i <= text@.len(),
            bytes@ == pairs_value(text@).take(i as int / 2),
            forall|j: int| 0 <= j < i ==> nibble(#[trigger] text@[j]) is Some,
        decreases text@.len() - i,
    {
        let high: u8 = match nibble_of(text[i]) {
            Some(high) => high,
            None => return Err(protocol("invalid pin content")),
        };
        let low: u8 = match nibble_of(text[i + 1]) {
            Some(low) => low,
            None => return Err(protocol("invalid pin content")),
        };
        let ghost before = bytes@;
        bytes.push(high * 16 + low);
        i += 2;
        assert(bytes@ =~= pairs_value(text@).take(i as int / 2)) by {
            assert(pairs_value(text@)[i as int / 2 - 1] == (16 * high + low) as u8);
        }
    }
    assert(bytes@ =~= pairs_value(text@));
    Ok(bytes)
}

/// Content sent as hexadecimal text arrives as it was.
pub proof fn law_content_round_trip(bytes: Seq<u8>)
    requires
        bytes.len() <= MAX_FILE,
    ensures
        unhex_outcome(text::hex(bytes)) == Ok::<Seq<u8>, ErrorModel>(bytes),
{
    let s = text::hex(bytes);
    assert forall|i: int| 0 <= i < s.len() implies '\0' <= #[trigger] s[i] <= '\u{7f}' by {
        assert(0 <= bytes[i / 2] as int / 16 < 16);
    }
    assert(is_ascii_chars(s));
    is_ascii_chars_encode_utf8(s);
    let text = encode_utf8(s);
    assert(text.len() == s.len());
    assert forall|i: int| 0 <= i < text.len() implies nibble(#[trigger] text[i]) is Some by {
        assert(text[i] as char == s[i]);
        assert(0 <= bytes[i / 2] as int / 16 < 16);
    }
    assert forall|i: int| 0 <= i < bytes.len() implies pairs_value(text)[i] == bytes[i] by {
        let b = bytes[i] as int;
        assert(text[2 * i] as char == s[2 * i]);
        assert(text[2 * i + 1] as char == s[2 * i + 1]);
        assert((2 * i) / 2 == i && (2 * i + 1) / 2 == i);
        assert(s[2 * i] == text::hex_digit(b / 16));
        assert(s[2 * i + 1] == text::hex_digit(b % 16));
        assert(nibble(text[2 * i]) == Some((b / 16) as u8));
        assert(nibble(text[2 * i + 1]) == Some((b % 16) as u8));
        assert(16 * (b / 16) + b % 16 == b);
    }
    assert(pairs_value(text) =~= bytes);
}

/// The JSON text of a fingerprint, or `null`.
pub open spec fn print_json(print: Option<FingerprintModel>) -> Seq<char> {
    match print {
        Some(p) => "{\"hash\":"@ + json::json_string_text(p.hash) + ",\"mode\":"@ + text::decimal(
            p.mode as nat,
        ) + "}"@,
        None => "null"@,
    }
}

pub fn print_text(print: &Option<Fingerprint>) -> (json: String)
    ensures
        json@ == print_json(print.deep_view()),
{
    match print {
        Some(p) => {
            let mut json = owned("{\"hash\":");
            json.append(json_string(&p.hash).as_str());
            json.append(",\"mode\":");
            json.append(decimal_text(p.mode as u64).as_str());
            json.append("}");
            json
        },
        None => owned("null"),
    }
}

/// The JSON text of a version, or `null`.
pub open spec fn version_json(version: Option<RecoveryVersionModel>) -> Seq<char> {
    match version {
        Some(v) => "{\"fingerprint\":"@ + print_json(Some(v.fingerprint)) + ",\"bytes\":"@
            + text::decimal(v.bytes as nat) + ",\"device\":"@ + text::decimal(v.device as nat)
            + ",\"inode\":"@ + text::decimal(v.inode as nat) + ",\"modified_seconds\":"@
            + text::signed_decimal(v.modified_seconds as int) + ",\"modified_nanoseconds\":"@
            + text::signed_decimal(v.modified_nanoseconds as int) + ",\"changed_seconds\":"@
            + text::signed_decimal(v.changed_seconds as int) + ",\"changed_nanoseconds\":"@
            + text::signed_decimal(v.changed_nanoseconds as int) + "}"@,
        None => "null"@,
    }
}

fn long_text(n: i64) -> (s: String)
    ensures
        s@ == text::signed_decimal(n as int),
{
    if n < 0 {
        let magnitude: u64 = (-(n + 1)) as u64 + 1;
        let mut s = owned("-");
        s.append(decimal_text(magnitude).as_str());
        s
    } else {
        decimal_text(n as u64)
    }
}

pub fn version_text(version: &Option<RecoveryVersion>) -> (json: String)
    ensures
        json@ == version_json(version.deep_view()),
{
    match version {
        Some(v) => {
            let print = Some(crate::data::Data::dup(&v.fingerprint));
            let mut json = owned("{\"fingerprint\":");
            json.append(print_text(&print).as_str());
            json.append(",\"bytes\":");
            json.append(decimal_text(v.bytes).as_str());
            json.append(",\"device\":");
            json.append(decimal_text(v.device).as_str());
            json.append(",\"inode\":");
            json.append(decimal_text(v.inode).as_str());
            json.append(",\"modified_seconds\":");
            json.append(long_text(v.modified_seconds).as_str());
            json.append(",\"modified_nanoseconds\":");
            json.append(long_text(v.modified_nanoseconds).as_str());
            json.append(",\"changed_seconds\":");
            json.append(long_text(v.changed_seconds).as_str());
            json.append(",\"changed_nanoseconds\":");
            json.append(long_text(v.changed_nanoseconds).as_str());
            json.append("}");
            json
        },
        None => owned("null"),
    }
}

pub open spec fn state_word(state: RecoveryState) -> Seq<char> {
    match state {
        RecoveryState::Pending => "pending"@,
        RecoveryState::Retained => "retained"@,
        RecoveryState::Resolved => "resolved"@,
        RecoveryState::Discarding => "discarding"@,
    }
}

pub fn state_text(state: RecoveryState) -> (word: String)
    ensures
        word@ == state_word(state),
{
    match state {
        RecoveryState::Pending => owned("pending"),
        RecoveryState::Retained => owned("retained"),
        RecoveryState::Resolved => owned("resolved"),
        RecoveryState::Discarding => owned("discarding"),
    }
}

/// A field that is left out where it has no value.
pub open spec fn optional_field(name: Seq<char>, value: Option<Seq<char>>) -> Seq<char> {
    match value {
        Some(text) => ",\""@ + name + "\":"@ + json::json_string_text(text),
        None => ""@,
    }
}

fn field_text(name: &str, value: &Option<String>) -> (json: String)
    ensures
        json@ == optional_field(name@, value.deep_view()),
{
    match value {
        Some(text) => {
            let mut json = cat3(",\"", name, "\":");
            json.append(json_string(text).as_str());
            json
        },
        None => owned(""),
    }
}

/// The JSON text of a receipt.
pub open spec fn receipt_json(r: RecoveryReceiptModel) -> Seq<char> {
    "{\"path\":"@ + json::json_string_text(r.path) + ",\"expected\":"@ + print_json(r.expected)
        + ",\"replacement\":"@ + print_json(r.replacement) + ",\"version\":"@ + json::json_string_text(
        r.version,
    ) + ",\"state\":\""@ + state_word(r.state) + "\""@ + optional_field(
        "source_receipt"@,
        r.source_receipt,
    ) + optional_field("discard_token"@, r.discard_token) + "}"@
}

pub fn receipt_text(r: &RecoveryReceipt) -> (json: String)
    ensures
        json@ == receipt_json(r@),
{
    let mut json = owned("{\"path\":");
    json.append(json_string(&r.path).as_str());
    json.append(",\"expected\":");
    json.append(print_text(&r.expected).as_str());
    json.append(",\"replacement\":");
    json.append(print_text(&r.replacement).as_str());
    json.append(",\"version\":");
    json.append(json_string(&r.version).as_str());
    json.append(",\"state\":\"");
    json.append(state_text(r.state).as_str());
    json.append("\"");
    json.append(field_text("source_receipt", &r.source_receipt).as_str());
    json.append(field_text("discard_token", &r.discard_token).as_str());
    json.append("}");
    json
}

/// What stands for an inspected text: its digest.
pub open spec fn token_of(json: Seq<char>) -> Seq<char> {
    crypto::digest_text(encode_utf8(json))
}

pub fn token(json: &str) -> (digest: String)
    ensures
        digest@ == token_of(json@),
{
    hash(json.as_bytes())
}

} // verus!
