//! Pairing: machine names, phrases, and the exchange of identities.

pub mod exchange;
pub mod handshake;

use hmac::{Hmac, Mac};
use sha2::Sha256;
use vstd::prelude::*;
use vstd::string::*;
use vstd::utf8::*;

use crate::crypto;
use crate::crypto::public_key_of;
use crate::data::Data;
use crate::error;
use crate::error::{ClixError, ErrorModel, Outcome, Result};
use crate::history::find_peer;
use crate::history::wire;
use crate::json;
use crate::json::{json_bytes, json_string};
use crate::scan;
use crate::scan::{is_letter_or_digit, text_of, trim};
use crate::search;
use crate::store::{Store, StoreModel};
use crate::text;
use crate::text::{cat3, chars_of, owned, split, text_same};
use crate::types::{BodyId, Peer, PeerModel};
use crate::words;
use crate::words::word_for;

verus! {

/// A character that a machine's name may hold.
pub open spec fn name_char() -> spec_fn(char) -> bool {
    |c: char| scan::letter_or_digit(c) || c == '-' || c == '_'
}

/// A name starts with a letter or digit and goes on with those, `-` and `_`.
pub open spec fn valid_name(name: Seq<char>) -> bool {
    name.len() > 0 && scan::letter_or_digit(name[0]) && forall|i: int|
        0 <= i < name.len() ==> name_char()(#[trigger] name[i])
}

pub open spec fn bad_name(name: Seq<char>) -> ErrorModel {
    ErrorModel::Usage("invalid machine name '"@ + name + "' (use letters, digits, - and _)"@)
}

pub open spec fn name_outcome(name: Seq<char>) -> Outcome<()> {
    if valid_name(name) {
        Ok(())
    } else {
        Err(bad_name(name))
    }
}

fn is_name_char(c: char) -> (yes: bool)
    ensures
        yes == name_char()(c),
{
    is_letter_or_digit(c) || c == '-' || c == '_'
}

fn is_valid_name(name: &str) -> (yes: bool)
    ensures
        yes == valid_name(name@),
{
    let chars = chars_of(name);
    if chars.len() == 0 || !is_letter_or_digit(chars[0]) {
        return false;
    }
    let mut i: usize = 0;
    while i < chars.len()
        invariant
            i <= chars.len(),
            chars@ == name@,
            forall|j: int| 0 <= j < i ==> name_char()(#[trigger] name@[j]),
        decreases chars.len() - i,
    {
        if !is_name_char(chars[i]) {
            assert(!name_char()(name@[i as int]));
            return false;
        }
        i += 1;
    }
    true
}

/// Names that a machine may have.
pub fn validate_name(name: &str) -> (result: Result<()>)
    ensures
        error::outcome(result) == name_outcome(name@),
{
    if is_valid_name(name) {
        Ok(())
    } else {
        Err(
            ClixError::Usage(
                cat3("invalid machine name '", name, "' (use letters, digits, - and _)"),
            ),
        )
    }
}

/// The words that the command line reads as commands.
pub open spec fn owner_command(word: Seq<char>) -> bool {
    word == "add"@ || word == "pair"@ || word == "hands"@ || word == "grants"@ || word == "remove"@
        || word == "log"@ || word == "job"@ || word == "storage"@ || word == "pin"@ || word
        == "pending"@ || word == "allow"@ || word == "deny"@ || word == "request"@ || word
        == "daemon"@ || word == "install"@ || word == "status"@
}

pub fn is_owner_command(word: &str) -> (yes: bool)
    ensures
        yes == owner_command(word@),
{
    text_same(word, "add") || text_same(word, "pair") || text_same(word, "hands") || text_same(
        word,
        "grants",
    ) || text_same(word, "remove") || text_same(word, "log") || text_same(word, "job") || text_same(
        word,
        "storage",
    ) || text_same(word, "pin") || text_same(word, "pending") || text_same(word, "allow")
        || text_same(word, "deny") || text_same(word, "request") || text_same(word, "daemon")
        || text_same(word, "install") || text_same(word, "status")
}

/// A name for a new pairing is valid and no command.
pub open spec fn new_name_outcome(name: Seq<char>) -> Outcome<()> {
    if !valid_name(name) {
        Err(bad_name(name))
    } else if owner_command(name) {
        Err(ErrorModel::Usage("'"@ + name + "' is a Clix command; choose another machine name"@))
    } else {
        Ok(())
    }
}

pub fn validate_new_name(name: &str) -> (result: Result<()>)
    ensures
        error::outcome(result) == new_name_outcome(name@),
{
    if let Err(e) = validate_name(name) {
        return Err(e);
    }
    if is_owner_command(name) {
        return Err(
            ClixError::Usage(
                cat3("'", name, "' is a Clix command; choose another machine name"),
            ),
        );
    }
    Ok(())
}

/// A text without the characters before its first letter or digit.
pub open spec fn from_letter(s: Seq<char>) -> Seq<char>
    decreases s.len(),
{
    if s.len() == 0 || scan::letter_or_digit(s[0]) {
        s
    } else {
        from_letter(s.skip(1))
    }
}

/// A machine name from a host name: the first label, without what names may not
/// hold; `clix` where nothing is left.
pub open spec fn sanitized(raw: Seq<char>) -> Seq<char> {
    let label = text::pieces(raw, '.')[0];
    let name = from_letter(search::kept(label, name_char()));
    if name.len() == 0 {
        "clix"@
    } else {
        name
    }
}

proof fn lemma_from_letter(s: Seq<char>, n: int)
    requires
        0 <= n <= s.len(),
        forall|j: int| 0 <= j < n ==> !scan::letter_or_digit(#[trigger] s[j]),
        n == s.len() || scan::letter_or_digit(s[n]),
    ensures
        from_letter(s) == s.skip(n),
    decreases n,
{
    if n == 0 {
        assert(s.skip(0) =~= s);
    } else {
        assert forall|j: int| 0 <= j < n - 1 implies !scan::letter_or_digit(#[trigger] s.skip(1)[j]) by {
            assert(s.skip(1)[j] == s[j + 1]);
        }
        lemma_from_letter(s.skip(1), n - 1);
        assert(s.skip(1).skip(n - 1) =~= s.skip(n));
    }
}

/// Whatever a host is called, the name made of it is a valid one.
pub proof fn law_sanitized_is_valid(raw: Seq<char>)
    ensures
        valid_name(sanitized(raw)),
{
    let letters = search::kept(text::pieces(raw, '.')[0], name_char());
    search::lemma_kept(text::pieces(raw, '.')[0], name_char());
    lemma_from_letter_kind(letters);
    let name = from_letter(letters);
    assert forall|i: int| 0 <= i < name.len() implies name_char()(#[trigger] name[i]) by {
        assert(letters.contains(name[i]));
        let j = choose|j: int| 0 <= j < letters.len() && letters[j] == name[i];
        assert(name_char()(letters[j]));
    }
    reveal_strlit("clix");
    assert forall|i: int| 0 <= i < "clix"@.len() implies name_char()(#[trigger] "clix"@[i]) by {
    }
}

proof fn lemma_from_letter_kind(s: Seq<char>)
    ensures
        from_letter(s).len() > 0 ==> scan::letter_or_digit(from_letter(s)[0]),
        forall|i: int| 0 <= i < from_letter(s).len() ==> s.contains(#[trigger] from_letter(s)[i]),
    decreases s.len(),
{
    if s.len() == 0 || scan::letter_or_digit(s[0]) {
        assert forall|i: int| 0 <= i < from_letter(s).len() implies s.contains(
            #[trigger] from_letter(s)[i],
        ) by {
            assert(from_letter(s)[i] == s[i]);
        }
    } else {
        lemma_from_letter_kind(s.skip(1));
        assert forall|i: int| 0 <= i < from_letter(s).len() implies s.contains(
            #[trigger] from_letter(s)[i],
        ) by {
            let c = from_letter(s.skip(1))[i];
            assert(s.skip(1).contains(c));
            let j = choose|j: int| 0 <= j < s.skip(1).len() && s.skip(1)[j] == c;
            assert(s[j + 1] == c);
        }
    }
}

/// A valid machine name from whatever a host is called.
pub fn sanitize_name(raw: &str) -> (name: String)
    ensures
        name@ == sanitized(raw@),
        valid_name(name@),
{
    proof {
        law_sanitized_is_valid(raw@);
        crate::text::lemma_pieces_some(raw@, '.');
    }
    let labels = split(raw, '.');
    assert(labels.deep_view()[0] == labels@[0]@);
    let label = chars_of(&labels[0]);
    let ghost view = label@;
    let mut name: Vec<char> = Vec::new();
    let mut i: usize = 0;
    assert(view.take(0) =~= Seq::<char>::empty());
    while i < label.len()
        invariant
            i <= label.len(),
            view == label@,
            name@ == search::kept(view.take(i as int), name_char()),
        decreases label.len() - i,
    {
        proof {
            search::lemma_kept_step(view, name_char(), i as int);
        }
        if is_name_char(label[i]) {
            name.push(label[i]);
        }
        i += 1;
    }
    assert(view.take(i as int) =~= view);
    let mut from: usize = 0;
    while from < name.len() && !is_letter_or_digit(name[from])
        invariant
            from <= name.len(),
            forall|j: int| 0 <= j < from ==> !scan::letter_or_digit(#[trigger] name@[j]),
        decreases name.len() - from,
    {
        from += 1;
    }
    proof {
        lemma_from_letter(name@, from as int);
    }
    if from == name.len() {
        owned("clix")
    } else {
        let kept_name = text_of(&name, from, name.len());
        assert(kept_name@ =~= name@.skip(from as int));
        kept_name
    }
}

/// This machine's name as `/etc/hostname` gives it.
pub fn hostname(content: Option<String>) -> (name: String)
    ensures
        name@ == sanitized(
            match content.deep_view() {
                Some(text) => scan::trimmed(text),
                None => ""@,
            },
        ),
        valid_name(name@),
{
    match content {
        Some(text) => sanitize_name(&trim(&text)),
        None => sanitize_name(""),
    }
}

/// Three words joined with `-`.
pub open spec fn phrase_text(random: Seq<u8>) -> Seq<char> {
    words::words()[random[0] as int] + "-"@ + words::words()[random[1] as int] + "-"@
        + words::words()[random[2] as int]
}

/// Three lowercase words from the 256-word list, joined with `-`, one for each
/// random byte.
pub fn phrase(random: [u8; 3]) -> (text: String)
    ensures
        text@ == phrase_text(random@),
{
    let mut text = word_for(random[0]);
    text.append("-");
    text.append(word_for(random[1]).as_str());
    text.append("-");
    text.append(word_for(random[2]).as_str());
    text
}

/// A phrase is exactly three words: split at its dashes it gives back the words of
/// the three bytes.
pub proof fn law_phrase_is_three_words(random: Seq<u8>)
    requires
        random.len() == 3,
    ensures
        text::pieces(phrase_text(random), '-') == seq![
            words::words()[random[0] as int],
            words::words()[random[1] as int],
            words::words()[random[2] as int],
        ],
{
    let a = words::words()[random[0] as int];
    let b = words::words()[random[1] as int];
    let c = words::words()[random[2] as int];
    words::law_words(random[0]);
    words::law_words(random[1]);
    words::law_words(random[2]);
    reveal_strlit("-");
    let none = Seq::<char>::empty();
    assert(!a.contains('-') && !b.contains('-') && !c.contains('-'));
    text::lemma_pieces_word(none, a, '-');
    assert(none + a =~= a);
    assert(text::pieces(a, '-') =~= seq![a]);
    assert((a + "-"@).drop_last() =~= a);
    assert(text::pieces(a + "-"@, '-') =~= seq![a, none]);
    text::lemma_pieces_word(a + "-"@, b, '-');
    assert(none + b =~= b);
    assert(text::pieces(a + "-"@ + b, '-') =~= seq![a, b]);
    assert((a + "-"@ + b + "-"@).drop_last() =~= a + "-"@ + b);
    assert(text::pieces(a + "-"@ + b + "-"@, '-') =~= seq![a, b, none]);
    text::lemma_pieces_word(a + "-"@ + b + "-"@, c, '-');
    assert(none + c =~= c);
    assert(text::pieces(phrase_text(random), '-') =~= seq![a, b, c]);
}

pub open spec fn phrase_mismatch_error() -> ErrorModel {
    ErrorModel::Io("phrase did not match"@)
}

pub fn phrase_mismatch() -> (error: ClixError)
    ensures
        error@ == phrase_mismatch_error(),
{
    ClixError::Io(owned("phrase did not match"))
}

/// Owner ed25519 public key from the 32-byte seed in the store.
pub fn owner_pk(sk: &Vec<u8>) -> (result: Result<Vec<u8>>)
    ensures
        wire::bytes_outcome(result) == if sk@.len() == 32 {
            Ok::<Seq<u8>, ErrorModel>(crypto::ed25519_public(sk@))
        } else {
            Err::<Seq<u8>, ErrorModel>(
                ErrorModel::Io("owner key is not a valid ed25519 secret"@),
            )
        },
{
    if sk.len() == 32 {
        Ok(public_key_of(sk))
    } else {
        Err(ClixError::Io(owned("owner key is not a valid ed25519 secret")))
    }
}

/// The shared key of an exchange, or the mismatch that a failed one means.
pub fn exchange_key(key: Option<Vec<u8>>) -> (result: Result<Vec<u8>>)
    ensures
        wire::bytes_outcome(result) == match key {
            Some(bytes) => Ok::<Seq<u8>, ErrorModel>(bytes@),
            None => Err::<Seq<u8>, ErrorModel>(phrase_mismatch_error()),
        },
{
    match key {
        Some(key) => Ok(key),
        None => Err(phrase_mismatch()),
    }
}

/// The HMAC-SHA-256 tag of a message under a key.
pub uninterp spec fn hmac_sha256(key: Seq<u8>, message: Seq<u8>) -> Seq<u8>;

/// `hmac::Hmac::<Sha256>`, keyed, updated and finalized: every key length is
/// accepted, and the tag has 32 bytes and depends on the key and the message alone.
#[verifier::external_body]
fn hmac_tag(key: &[u8], message: &[u8]) -> (tag: Option<Vec<u8>>)
    ensures
        tag is Some,
        tag->0@ == hmac_sha256(key@, message@),
        tag->0@.len() == 32,
{
    let mut mac = Hmac::<Sha256>::new_from_slice(key).ok()?;
    mac.update(message);
    Some(mac.finalize().into_bytes().to_vec())
}

/// `hmac::Mac::verify_slice`: accepts exactly the tag of the message.
#[verifier::external_body]
fn hmac_accepts(key: &[u8], message: &[u8], tag: &[u8]) -> (accepted: bool)
    ensures
        accepted == (tag@ == hmac_sha256(key@, message@)),
{
    match Hmac::<Sha256>::new_from_slice(key) {
        Ok(mut mac) => {
            mac.update(message);
            mac.verify_slice(tag).is_ok()
        },
        Err(_) => false,
    }
}

/// What a tag covers: the context and the identity.
pub open spec fn pair_message(payload: Seq<u8>) -> Seq<u8> {
    encode_utf8("clix-pair-v1"@) + payload
}

/// The JSON text of an identity.
pub open spec fn identity_json(name: Seq<char>, owner_pk: Seq<u8>, addr: Seq<char>) -> Seq<char> {
    "{\"name\":"@ + json::json_string_text(name) + ",\"owner_pk\":"@ + json::json_list(json::byte_items(owner_pk))
        + ",\"addr\":"@ + json::json_string_text(addr) + "}"@
}

/// A frame that carries an identity: the tag and what it covers.
pub open spec fn sealed(key: Seq<u8>, payload: Seq<u8>) -> Seq<u8> {
    hmac_sha256(key, pair_message(payload)) + payload
}

fn covered(payload: &[u8]) -> (message: Vec<u8>)
    ensures
        message@ == pair_message(payload@),
{
    let mut message: Vec<u8> = Vec::new();
    message.extend_from_slice("clix-pair-v1".as_bytes());
    message.extend_from_slice(payload);
    assert(message@ =~= pair_message(payload@));
    message
}

/// An identity comes back as it was sent, to whoever holds the same key.
proof fn lemma_identity_comes_back(key: Seq<u8>, payload: Seq<u8>)
    requires
        hmac_sha256(key, pair_message(payload)).len() == 32,
    ensures
        opened(key, sealed(key, payload)) == Ok::<Seq<u8>, ErrorModel>(payload),
{
    let frame = sealed(key, payload);
    assert(frame.take(32) =~= hmac_sha256(key, pair_message(payload)));
    assert(frame.skip(32) =~= payload);
}

/// The frame that tells the other side who this machine is. Opened under the
/// same key, it gives the identity back.
pub fn identity_frame(key: &Vec<u8>, name: &str, owner_pk: &Vec<u8>, addr: &str) -> (frame: Vec<
    u8,
>)
    ensures
        frame@ == sealed(key@, encode_utf8(identity_json(name@, owner_pk@, addr@))),
        opened(key@, frame@) == Ok::<Seq<u8>, ErrorModel>(
            encode_utf8(identity_json(name@, owner_pk@, addr@)),
        ),
{
    let mut json = owned("{\"name\":");
    json.append(json_string(name).as_str());
    json.append(",\"owner_pk\":");
    json.append(json_bytes(owner_pk).as_str());
    json.append(",\"addr\":");
    json.append(json_string(addr).as_str());
    json.append("}");
    let payload = json.as_str().as_bytes();
    let message = covered(payload);
    let mut frame: Vec<u8> = match hmac_tag(key, &message) {
        Some(tag) => tag,
        None => Vec::new(),
    };
    frame.extend_from_slice(payload);
    assert(frame@ =~= sealed(key@, payload@));
    proof {
        lemma_identity_comes_back(key@, payload@);
    }
    frame
}

pub open spec fn opened(key: Seq<u8>, frame: Seq<u8>) -> Outcome<Seq<u8>> {
    if frame.len() < 32 || frame.take(32) != hmac_sha256(key, pair_message(frame.skip(32))) {
        Err(phrase_mismatch_error())
    } else {
        Ok(frame.skip(32))
    }
}

fn part(bytes: &Vec<u8>, from: usize, to: usize) -> (slice: Vec<u8>)
    requires
        from <= to <= bytes.len(),
    ensures
        slice@ == bytes@.subrange(from as int, to as int),
{
    let mut slice: Vec<u8> = Vec::new();
    let mut i: usize = from;
    while i < to
        invariant
            from <= i <= to <= bytes.len(),
            slice@ == bytes@.subrange(from as int, i as int),
        decreases to - i,
    {
        slice.push(bytes[i]);
        i += 1;
        assert(slice@ =~= bytes@.subrange(from as int, i as int));
    }
    slice
}

/// The identity in a frame, if whoever sent it holds the key.
pub fn open_identity(key: &Vec<u8>, frame: &Vec<u8>) -> (result: Result<Vec<u8>>)
    ensures
        wire::bytes_outcome(result) == opened(key@, frame@),
{
    if frame.len() < 32 {
        return Err(phrase_mismatch());
    }
    let tag = part(frame, 0, 32);
    let payload = part(frame, 32, frame.len());
    assert(tag@ =~= frame@.take(32));
    assert(payload@ =~= frame@.skip(32));
    let message = covered(&payload);
    if hmac_accepts(key, &message, &tag) {
        Ok(payload)
    } else {
        Err(phrase_mismatch())
    }
}

/// Who this machine is: its name, or its host's where it has none, and its key.
pub fn local_identity(store: &Store, host: String) -> (result: Result<(String, Vec<u8>)>)
    ensures
        (match result {
            Ok((name, pk)) => store@.owner_sk.len() == 32 && pk@ == crypto::ed25519_public(store@.owner_sk)
                && name@ == if store@.body_name.len() == 0 {
                host@
            } else {
                store@.body_name
            },
            Err(e) => store@.owner_sk.len() != 32 && e@ == ErrorModel::Io(
                "owner key is not a valid ed25519 secret"@,
            ),
        }),
{
    match owner_pk(&store.owner_sk) {
        Ok(pk) => {
            let name = if store.body_name.as_str().is_empty() {
                host
            } else {
                store.body_name.dup()
            };
            Ok((name, pk))
        },
        Err(e) => Err(e),
    }
}

/// A machine as it announced itself; where it names no address, the one that it
/// was reached at.
pub open spec fn announced(
    name: Seq<char>,
    owner_pk: Seq<u8>,
    addr: Option<Seq<char>>,
    reached: Option<Seq<char>>,
) -> PeerModel {
    PeerModel {
        name,
        owner_pk,
        addr: if addr is Some && addr->0.len() > 0 {
            addr
        } else {
            reached
        },
    }
}

/// The peers with one more, or with the one of the same name replaced.
pub open spec fn with_peer(peers: Seq<PeerModel>, peer: PeerModel) -> Seq<PeerModel> {
    match search::first(peers, wire::peer_named(peer.name)) {
        Some(at) => peers.update(at, peer),
        None => peers.push(peer),
    }
}

/// After a pairing the machine is known under its name, with the key that it
/// proved, and every other machine is as it was.
pub proof fn law_pairing_adds_one(peers: Seq<PeerModel>, peer: PeerModel, other: Seq<char>)
    ensures
        search::found(with_peer(peers, peer), wire::peer_named(peer.name)) == Some(peer),
        other != peer.name ==> search::found(with_peer(peers, peer), wire::peer_named(other))
            == search::found(peers, wire::peer_named(other)),
{
    let mine = wire::peer_named(peer.name);
    let theirs = wire::peer_named(other);
    let next = with_peer(peers, peer);
    search::lemma_first(peers, mine);
    search::lemma_first(peers, theirs);
    let at = match search::first(peers, mine) {
        Some(at) => at,
        None => peers.len() as int,
    };
    assert forall|j: int| 0 <= j < at implies !mine(#[trigger] next[j]) by {
        assert(next[j] == peers[j]);
    }
    search::lemma_first_at(next, mine, at);
    if other != peer.name {
        match search::first(peers, theirs) {
            Some(place) => {
                assert forall|j: int| 0 <= j < place implies !theirs(#[trigger] next[j]) by {
                    if j != at {
                        assert(next[j] == peers[j]);
                    }
                }
                assert(next[place] == peers[place]);
                search::lemma_first_at(next, theirs, place);
            },
            None => {
                assert forall|j: int| 0 <= j < next.len() implies !theirs(#[trigger] next[j]) by {
                    if j != at {
                        assert(next[j] == peers[j]);
                    }
                }
                search::lemma_first_none(next, theirs);
            },
        }
    }
}

/// Record a machine that proved to know the phrase.
pub fn persist_peer(
    store: &mut Store,
    name: String,
    owner_pk: Vec<u8>,
    addr: Option<String>,
    reached: Option<String>,
) -> (result: Result<Peer>)
    ensures
        (match new_name_outcome(name@) {
            Err(e) => error::outcome(result) == Err::<PeerModel, ErrorModel>(e) && final(store)@ == old(
                store,
            )@,
            Ok(_) => {
                let peer = announced(name@, owner_pk@, addr.deep_view(), reached.deep_view());
                error::outcome(result) == Ok::<PeerModel, ErrorModel>(peer) && final(store)@
                    == (StoreModel { peers: with_peer(old(store)@.peers, peer), ..old(store)@ })
            },
        }),
{
    if let Err(e) = validate_new_name(&name) {
        return Err(e);
    }
    let addr = match addr {
        Some(addr) => if addr.as_str().is_empty() {
            reached
        } else {
            Some(addr)
        },
        None => reached,
    };
    let peer = Peer { name: BodyId(name), owner_pk, addr };
    put_peer(store, peer.dup());
    Ok(peer)
}

fn put_peer(store: &mut Store, peer: Peer)
    ensures
        final(store)@ == (StoreModel {
            peers: with_peer(old(store)@.peers, peer@),
            ..old(store)@
        }),
{
    let ghost start = store@;
    let ghost item = peer@;
    match find_peer(&store.peers, &peer.name.0) {
        Some(at) => {
            store.peers[at] = peer;
            assert(store.peers.deep_view() =~= start.peers.update(at as int, item));
        },
        None => {
            store.peers.push(peer);
            assert(store.peers.deep_view() =~= start.peers.push(item));
        },
    }
}

/// Take the name that the owner chose for this machine, or its host's.
pub fn apply_body_name(store: &mut Store, name: Option<String>, host: String) -> (result: Result<
    (),
>)
    ensures
        (match name.deep_view() {
            Some(chosen) => if new_name_outcome(chosen) is Err {
                error::outcome(result) == new_name_outcome(chosen) && final(store)@ == old(store)@
            } else {
                result is Ok && final(store)@ == (StoreModel { body_name: chosen, ..old(store)@ })
            },
            None => result is Ok && final(store)@ == if old(store)@.body_name.len() == 0 {
                StoreModel { body_name: host@, ..old(store)@ }
            } else {
                old(store)@
            },
        }),
{
    match name {
        Some(chosen) => {
            if let Err(e) = validate_new_name(&chosen) {
                return Err(e);
            }
            store.body_name = chosen;
        },
        None => {
            if store.body_name.as_str().is_empty() {
                store.body_name = host;
            }
        },
    }
    Ok(())
}

/// The error of a search through every reachable machine: the last one's.
pub fn search_failed(last: Option<ClixError>) -> (error: ClixError)
    ensures
        error@ == match last {
            Some(e) => e@,
            None => ErrorModel::Io("no online Tailscale peers"@),
        },
{
    match last {
        Some(e) => e,
        None => ClixError::Io(owned("no online Tailscale peers")),
    }
}

} // verus!
