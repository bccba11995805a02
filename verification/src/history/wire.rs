//! What is signed, byte for byte, and whose signature counts.

use vstd::prelude::*;
use vstd::string::*;
use vstd::utf8::*;

use crate::crypto;
use crate::crypto::{hash, key_is_point, public_key_of, sign, verify_strict};
use crate::data::{bytes_dup, Data};
use crate::error;
use crate::error::{protocol, ErrorModel, Outcome, Result};
use crate::history::record::{
    Certificate, CertificateModel, Fact, FactModel, Invocation, InvocationModel, OutputRef,
    OutputRefModel, Record, RecordModel, Role, SignedFact, SignedFactModel,
};
use crate::json;
use crate::json::{json_bytes, json_optional, json_string, json_texts};
use crate::limits;
use crate::search;
use crate::store::{Store, StoreModel};
use crate::text;
use crate::text::{bytes_same, decimal_text, owned, signed_text, text_bytes};
use crate::types::{BodyId, JobStatus, JobStatusModel, Peer, PeerModel};

verus! {

/// Each output stream is kept up to this many bytes.
pub const STREAM_BYTES: usize = 4 * 1024 * 1024;

pub open spec fn status_json(status: JobStatusModel) -> Seq<char> {
    match status {
        JobStatusModel::Queued => "\"Queued\""@,
        JobStatusModel::WaitingBody => "\"WaitingBody\""@,
        JobStatusModel::WaitingCapacity => "\"WaitingCapacity\""@,
        JobStatusModel::Running => "\"Running\""@,
        JobStatusModel::Done { exit } => "{\"Done\":{\"exit\":"@ + text::signed_decimal(exit as int)
            + "}}"@,
        JobStatusModel::Denied { reason } => "{\"Denied\":{\"reason\":"@ + json::json_string_text(reason)
            + "}}"@,
        JobStatusModel::Failed { reason } => "{\"Failed\":{\"reason\":"@ + json::json_string_text(reason)
            + "}}"@,
        JobStatusModel::Uncertain { reason } => "{\"Uncertain\":{\"reason\":"@ + json::json_string_text(
            reason,
        ) + "}}"@,
    }
}

pub open spec fn role_json(role: Role) -> Seq<char> {
    match role {
        Role::Origin => "\"origin\""@,
        Role::Runner => "\"runner\""@,
        Role::LegacyObserver => "\"legacy_observer\""@,
    }
}

pub open spec fn output_json(output: OutputRefModel) -> Seq<char> {
    "{\"bytes\":"@ + text::decimal(output.bytes as nat) + ",\"sha256\":"@ + json::json_string_text(
        output.sha256,
    ) + "}"@
}

pub open spec fn invocation_json(i: InvocationModel) -> Seq<char> {
    "{\"id\":"@ + json::json_string_text(i.id) + ",\"from\":"@ + json::json_string_text(i.from)
        + ",\"origin_key\":"@ + json::json_list(json::byte_items(i.origin_key)) + ",\"body\":"@
        + json::json_string_text(i.body) + ",\"runner_key\":"@ + json::json_list(json::byte_items(i.runner_key))
        + ",\"argv\":"@ + json::json_list(json::text_items(i.argv)) + ",\"retry_of\":"@ + json::json_optional_text(
        i.retry_of,
    ) + ",\"legacy_observer\":"@ + json::json_optional_text(i.legacy_observer) + "}"@
}

pub open spec fn fact_json(f: FactModel) -> Seq<char> {
    "{\"invocation\":"@ + json::json_string_text(f.invocation) + ",\"role\":"@ + role_json(f.role)
        + ",\"revision\":"@ + text::decimal(f.revision as nat) + ",\"status\":"@ + status_json(f.status)
        + ",\"stdout\":"@ + output_json(f.stdout) + ",\"stderr\":"@ + output_json(f.stderr) + "}"@
}

/// The bytes that a signature covers: a domain, a kind and the JSON value.
pub open spec fn message(kind: Seq<char>, json: Seq<char>) -> Seq<u8> {
    encode_utf8("Clix history v1\0"@ + kind + "\0"@ + json)
}

pub open spec fn invocation_message(i: InvocationModel) -> Seq<u8> {
    message("invocation"@, invocation_json(i))
}

pub open spec fn fact_message(f: FactModel) -> Seq<u8> {
    message("fact"@, fact_json(f))
}

/// The key under which an invocation's history is kept.
pub open spec fn invocation_key(c: CertificateModel) -> Seq<char> {
    crypto::digest_text(invocation_message(c.invocation))
}

/// What refers to some output: its size and digest.
pub open spec fn output_ref(bytes: Seq<u8>) -> OutputRefModel {
    OutputRefModel { bytes: bytes.len() as usize, sha256: crypto::digest_text(bytes) }
}

pub fn status_text(status: &JobStatus) -> (json: String)
    ensures
        json@ == status_json(status@),
{
    match status {
        JobStatus::Queued => owned("\"Queued\""),
        JobStatus::WaitingBody => owned("\"WaitingBody\""),
        JobStatus::WaitingCapacity => owned("\"WaitingCapacity\""),
        JobStatus::Running => owned("\"Running\""),
        JobStatus::Done { exit } => {
            let mut json = owned("{\"Done\":{\"exit\":");
            json.append(signed_text(*exit).as_str());
            json.append("}}");
            json
        },
        JobStatus::Denied { reason } => {
            let mut json = owned("{\"Denied\":{\"reason\":");
            json.append(json_string(reason).as_str());
            json.append("}}");
            json
        },
        JobStatus::Failed { reason } => {
            let mut json = owned("{\"Failed\":{\"reason\":");
            json.append(json_string(reason).as_str());
            json.append("}}");
            json
        },
        JobStatus::Uncertain { reason } => {
            let mut json = owned("{\"Uncertain\":{\"reason\":");
            json.append(json_string(reason).as_str());
            json.append("}}");
            json
        },
    }
}

fn role_text(role: Role) -> (json: String)
    ensures
        json@ == role_json(role),
{
    match role {
        Role::Origin => owned("\"origin\""),
        Role::Runner => owned("\"runner\""),
        Role::LegacyObserver => owned("\"legacy_observer\""),
    }
}

fn output_text(output: &OutputRef) -> (json: String)
    ensures
        json@ == output_json(output@),
{
    let mut json = owned("{\"bytes\":");
    json.append(decimal_text(output.bytes as u64).as_str());
    json.append(",\"sha256\":");
    json.append(json_string(&output.sha256).as_str());
    json.append("}");
    json
}

fn optional_name(name: &Option<BodyId>) -> (json: String)
    ensures
        json@ == json::json_optional_text(name.deep_view()),
{
    match name {
        Some(body) => json_string(&body.0),
        None => owned("null"),
    }
}

pub fn invocation_text(i: &Invocation) -> (json: String)
    ensures
        json@ == invocation_json(i@),
{
    let mut json = owned("{\"id\":");
    json.append(json_string(&i.id).as_str());
    json.append(",\"from\":");
    json.append(json_string(&i.from.0).as_str());
    json.append(",\"origin_key\":");
    json.append(json_bytes(&i.origin_key).as_str());
    json.append(",\"body\":");
    json.append(json_string(&i.body.0).as_str());
    json.append(",\"runner_key\":");
    json.append(json_bytes(&i.runner_key).as_str());
    json.append(",\"argv\":");
    json.append(json_texts(&i.argv).as_str());
    json.append(",\"retry_of\":");
    json.append(json_optional(i.retry_of.as_ref()).as_str());
    json.append(",\"legacy_observer\":");
    json.append(optional_name(&i.legacy_observer).as_str());
    json.append("}");
    json
}

pub fn fact_text(f: &Fact) -> (json: String)
    ensures
        json@ == fact_json(f@),
{
    let mut json = owned("{\"invocation\":");
    json.append(json_string(&f.invocation).as_str());
    json.append(",\"role\":");
    json.append(role_text(f.role).as_str());
    json.append(",\"revision\":");
    json.append(decimal_text(f.revision).as_str());
    json.append(",\"status\":");
    json.append(status_text(&f.status).as_str());
    json.append(",\"stdout\":");
    json.append(output_text(&f.stdout).as_str());
    json.append(",\"stderr\":");
    json.append(output_text(&f.stderr).as_str());
    json.append("}");
    json
}

/// The text whose bytes are signed.
pub fn signed_message(kind: &str, json: &str) -> (text: String)
    ensures
        encode_utf8(text@) == message(kind@, json@),
{
    let mut text = owned("Clix history v1\0");
    text.append(kind);
    text.append("\0");
    text.append(json);
    text
}

impl OutputRef {
    pub fn of(bytes: &[u8]) -> (output: OutputRef)
        ensures
            output@ == output_ref(bytes@),
            bytes@.len() <= STREAM_BYTES ==> digest_ok(output@),
    {
        proof {
            lemma_digest_digits(bytes@);
        }
        OutputRef { bytes: bytes.len(), sha256: hash(bytes) }
    }
}

pub fn invocation_hash(certificate: &Certificate) -> (result: Result<String>)
    ensures
        error::outcome(result) == Ok::<Seq<char>, ErrorModel>(invocation_key(certificate@)),
        result matches Ok(key) ==> key@.len() == 64 && forall|i: int|
            0 <= i < 64 ==> is_hex_digit(#[trigger] key@[i]),
{
    proof {
        lemma_digest_digits(invocation_message(certificate@.invocation));
    }
    let json = invocation_text(&certificate.invocation);
    Ok(hash(signed_message("invocation", json.as_str()).as_str().as_bytes()))
}

/// The same key, without a failure that cannot happen.
pub(crate) fn key_of(certificate: &Certificate) -> (key: String)
    ensures
        key@ == invocation_key(certificate@),
{
    let json = invocation_text(&certificate.invocation);
    hash(signed_message("invocation", json.as_str()).as_str().as_bytes())
}

impl RecordModel {
    pub open spec fn selected(self) -> Option<SignedFactModel> {
        match self.runner {
            Some(fact) => Some(fact),
            None => self.origin,
        }
    }
}

impl Record {
    /// The fact that counts: the runner's own, else the origin's observation.
    pub fn selected(&self) -> (fact: Option<&SignedFact>)
        ensures
            (match fact {
                Some(f) => self@.selected() == Some(f@),
                None => self@.selected() is None,
            }),
    {
        match &self.runner {
            Some(fact) => Some(fact),
            None => match &self.origin {
                Some(fact) => Some(fact),
                None => None,
            },
        }
    }

    pub fn key(&self) -> (result: Result<String>)
        ensures
            error::outcome(result) == Ok::<Seq<char>, ErrorModel>(invocation_key(self@.certificate)),
    {
        invocation_hash(&self.certificate)
    }
}

/// Peers by that name.
pub open spec fn peer_named(name: Seq<char>) -> spec_fn(PeerModel) -> bool {
    |p: PeerModel| p.name == name
}

pub fn find_peer(peers: &Vec<Peer>, name: &str) -> (at: Option<usize>)
    ensures
        (match at {
            Some(i) => i < peers.len() && search::first(peers.deep_view(), peer_named(name@)) == Some(
                i as int,
            ),
            None => search::first(peers.deep_view(), peer_named(name@)) is None,
        }),
{
    let ghost view = peers.deep_view();
    let mut i: usize = 0;
    while i < peers.len()
        invariant
            i <= peers.len(),
            view == peers.deep_view(),
            forall|j: int| 0 <= j < i ==> !peer_named(name@)(#[trigger] view[j]),
        decreases peers.len() - i,
    {
        assert(view[i as int] == peers@[i as int]@);
        if crate::text::text_same(&peers[i].name.0, name) {
            proof {
                search::lemma_first_at(view, peer_named(name@), i as int);
            }
            return Some(i);
        }
        i += 1;
    }
    proof {
        search::lemma_first_none(view, peer_named(name@));
    }
    None
}

pub open spec fn public_key_outcome(store: StoreModel) -> Outcome<Seq<u8>> {
    if store.owner_sk.len() == 32 {
        Ok(crypto::ed25519_public(store.owner_sk))
    } else {
        Err(ErrorModel::Protocol("invalid local history identity"@))
    }
}

pub open spec fn known_key_outcome(store: StoreModel, name: Seq<char>) -> Outcome<Seq<u8>> {
    if name == store.body_name {
        public_key_outcome(store)
    } else {
        match search::found(store.peers, peer_named(name)) {
            Some(peer) => Ok(peer.owner_pk),
            None => Err(
                ErrorModel::Protocol("history includes an author that is not explicitly paired"@),
            ),
        }
    }
}

/// The meaning of a result that carries bytes.
pub open spec fn bytes_outcome(result: Result<Vec<u8>>) -> Outcome<Seq<u8>> {
    match result {
        Ok(bytes) => Ok(bytes@),
        Err(error) => Err(error@),
    }
}

/// This machine's public key.
pub fn public_key(store: &Store) -> (result: Result<Vec<u8>>)
    ensures
        bytes_outcome(result) == public_key_outcome(store@),
{
    if store.owner_sk.len() != 32 {
        return Err(protocol("invalid local history identity"));
    }
    Ok(public_key_of(&store.owner_sk))
}

/// The key of this machine, or of a machine that is explicitly paired.
pub fn known_key(store: &Store, name: &BodyId) -> (result: Result<Vec<u8>>)
    ensures
        bytes_outcome(result) == known_key_outcome(store@, name@),
{
    if name.0.same(&store.body_name) {
        return public_key(store);
    }
    match find_peer(&store.peers, &name.0) {
        Some(i) => Ok(bytes_dup(&store.peers[i].owner_pk)),
        None => Err(protocol("history includes an author that is not explicitly paired")),
    }
}

pub open spec fn verify_outcome(covered: Seq<u8>, signature: Seq<u8>, key: Seq<u8>) -> Outcome<
    (),
> {
    if key.len() != 32 || !crypto::ed25519_point(key) {
        Err(ErrorModel::Protocol("invalid history public key"@))
    } else if signature.len() != 64 {
        Err(ErrorModel::Protocol("invalid history signature length"@))
    } else if !crypto::ed25519_accepts(key, covered, signature) {
        Err(ErrorModel::Protocol("history signature did not verify"@))
    } else {
        Ok(())
    }
}

fn verify(kind: &str, json: &str, signature: &Vec<u8>, key: &Vec<u8>) -> (result: Result<()>)
    ensures
        error::outcome(result) == verify_outcome(message(kind@, json@), signature@, key@),
{
    if key.len() != 32 || !key_is_point(key) {
        return Err(protocol("invalid history public key"));
    }
    if signature.len() != 64 {
        return Err(protocol("invalid history signature length"));
    }
    let text = signed_message(kind, json);
    if !verify_strict(key, text.as_str().as_bytes(), signature) {
        return Err(protocol("history signature did not verify"));
    }
    Ok(())
}

/// Whose signature an invocation must carry.
pub open spec fn signer_outcome(store: StoreModel, i: InvocationModel) -> Outcome<Seq<u8>> {
    match i.legacy_observer {
        Some(observer) => if observer == i.from || observer == i.body {
            match known_key_outcome(store, observer) {
                Ok(key) => {
                    let recorded = if observer == i.from {
                        i.origin_key
                    } else {
                        i.runner_key
                    };
                    if recorded != key {
                        Err(
                            ErrorModel::Protocol(
                                "legacy observer identity differs from its paired key"@,
                            ),
                        )
                    } else {
                        Ok(key)
                    }
                },
                Err(e) => Err(e),
            }
        } else {
            Err(ErrorModel::Protocol("legacy observer was not a job participant"@))
        },
        None => match known_key_outcome(store, i.from) {
            Err(e) => Err(e),
            Ok(origin) => if origin != i.origin_key {
                Err(ErrorModel::Protocol("history identity differs from the paired key"@))
            } else {
                match known_key_outcome(store, i.body) {
                    Err(e) => Err(e),
                    Ok(runner) => if runner != i.runner_key {
                        Err(ErrorModel::Protocol("history identity differs from the paired key"@))
                    } else {
                        Ok(i.origin_key)
                    },
                }
            },
        },
    }
}

pub open spec fn retry_outcome(i: InvocationModel) -> Outcome<()> {
    match i.retry_of {
        Some(id) => if limits::identifier_outcome(id) is Err {
            limits::identifier_outcome(id)
        } else if id == i.id {
            Err(ErrorModel::Protocol("a retry must have a new job ID"@))
        } else {
            Ok(())
        },
        None => Ok(()),
    }
}

pub open spec fn validate_invocation_outcome(store: StoreModel, c: CertificateModel) -> Outcome<
    (),
> {
    let i = c.invocation;
    if limits::invocation_outcome(i.id, i.argv) is Err {
        limits::invocation_outcome(i.id, i.argv)
    } else if retry_outcome(i) is Err {
        retry_outcome(i)
    } else {
        match signer_outcome(store, i) {
            Err(e) => Err(e),
            Ok(key) => verify_outcome(invocation_message(i), c.signature, key),
        }
    }
}

fn signer(store: &Store, i: &Invocation) -> (result: Result<Vec<u8>>)
    ensures
        bytes_outcome(result) == signer_outcome(store@, i@),
{
    match &i.legacy_observer {
        Some(observer) => {
            let origin: bool = observer.same(&i.from);
            if !origin && !observer.same(&i.body) {
                return Err(protocol("legacy observer was not a job participant"));
            }
            let key = match known_key(store, observer) {
                Ok(key) => key,
                Err(e) => return Err(e),
            };
            let recorded = if origin {
                &i.origin_key
            } else {
                &i.runner_key
            };
            if !bytes_same(recorded, &key) {
                return Err(protocol("legacy observer identity differs from its paired key"));
            }
            Ok(key)
        },
        None => {
            let origin = match known_key(store, &i.from) {
                Ok(key) => key,
                Err(e) => return Err(e),
            };
            if !bytes_same(&origin, &i.origin_key) {
                return Err(protocol("history identity differs from the paired key"));
            }
            let runner = match known_key(store, &i.body) {
                Ok(key) => key,
                Err(e) => return Err(e),
            };
            if !bytes_same(&runner, &i.runner_key) {
                return Err(protocol("history identity differs from the paired key"));
            }
            Ok(origin)
        },
    }
}

/// A certificate counts only when a paired participant signed its invocation.
pub fn validate_invocation(store: &Store, c: &Certificate) -> (result: Result<()>)
    ensures
        error::outcome(result) == validate_invocation_outcome(store@, c@),
{
    let i = &c.invocation;
    if let Err(e) = crate::limits::invocation(&i.id, &i.argv) {
        return Err(e);
    }
    if let Some(id) = &i.retry_of {
        if let Err(e) = crate::limits::identifier(id) {
            return Err(e);
        }
        if id.same(&i.id) {
            return Err(protocol("a retry must have a new job ID"));
        }
    }
    let key = match signer(store, i) {
        Ok(key) => key,
        Err(e) => return Err(e),
    };
    let json = invocation_text(i);
    verify("invocation", json.as_str(), &c.signature, &key)
}

pub open spec fn authorize_outcome(
    store: StoreModel,
    peer: PeerModel,
    c: CertificateModel,
) -> Outcome<()> {
    let i = c.invocation;
    let refused = Err(ErrorModel::Protocol("history relay is not execution authority"@));
    if validate_invocation_outcome(store, c) is Err {
        validate_invocation_outcome(store, c)
    } else if i.legacy_observer is Some || i.from != peer.name || i.origin_key != peer.owner_pk
        || i.body != store.body_name {
        refused
    } else {
        match public_key_outcome(store) {
            Err(e) => Err(e),
            Ok(key) => if i.runner_key != key {
                refused
            } else {
                Ok(())
            },
        }
    }
}

/// Only the origin itself, for this machine, may have an invocation executed.
pub fn authorize_execution(store: &Store, peer: &Peer, c: &Certificate) -> (result: Result<()>)
    ensures
        error::outcome(result) == authorize_outcome(store@, peer@, c@),
{
    if let Err(e) = validate_invocation(store, c) {
        return Err(e);
    }
    let i = &c.invocation;
    if i.legacy_observer.is_some() || !i.from.same(&peer.name) || !bytes_same(
        &i.origin_key,
        &peer.owner_pk,
    ) || !i.body.0.same(&store.body_name) {
        return Err(protocol("history relay is not execution authority"));
    }
    match public_key(store) {
        Ok(key) => if bytes_same(&i.runner_key, &key) {
            Ok(())
        } else {
            Err(protocol("history relay is not execution authority"))
        },
        Err(e) => Err(e),
    }
}

/// A hexadecimal digit of either case.
pub open spec fn is_hex_digit(c: char) -> bool {
    '0' <= c <= '9' || 'a' <= c <= 'f' || 'A' <= c <= 'F'
}

pub open spec fn digest_ok(output: OutputRefModel) -> bool {
    output.bytes <= STREAM_BYTES && output.sha256.len() == 64 && forall|i: int|
        0 <= i < output.sha256.len() ==> is_hex_digit(#[trigger] output.sha256[i])
}

/// A digest is written in hexadecimal digits.
proof fn lemma_digest_digits(data: Seq<u8>)
    ensures
        forall|i: int|
            0 <= i < crypto::digest_text(data).len() ==> is_hex_digit(
                #[trigger] crypto::digest_text(data)[i],
            ),
{
}

fn hexadecimal(text: &str) -> (all: bool)
    ensures
        all == forall|i: int| 0 <= i < text@.len() ==> is_hex_digit(#[trigger] text@[i]),
{
    let chars = crate::text::chars_of(text);
    let mut i: usize = 0;
    while i < chars.len()
        invariant
            i <= chars.len(),
            chars@ == text@,
            forall|j: int| 0 <= j < i ==> is_hex_digit(#[trigger] text@[j]),
        decreases chars.len() - i,
    {
        let c = chars[i];
        if !(('0' <= c && c <= '9') || ('a' <= c && c <= 'f') || ('A' <= c && c <= 'F')) {
            assert(!is_hex_digit(text@[i as int]));
            return false;
        }
        i += 1;
    }
    true
}

/// Hexadecimal text is as long in bytes as in characters.
proof fn lemma_hex_bytes(text: Seq<char>)
    requires
        forall|i: int| 0 <= i < text.len() ==> is_hex_digit(#[trigger] text[i]),
    ensures
        crate::text::byte_len(text) == text.len(),
{
    assert(is_ascii_chars(text));
    is_ascii_chars_encode_utf8(text);
}

fn digest_fits(output: &OutputRef) -> (fits: bool)
    ensures
        fits == digest_ok(output@),
{
    if output.bytes > STREAM_BYTES || !hexadecimal(&output.sha256) {
        return false;
    }
    proof {
        lemma_hex_bytes(output.sha256@);
    }
    text_bytes(&output.sha256) == 64
}

/// What an origin may report: delivery, never a runner's outcome.
pub open spec fn origin_status(status: JobStatusModel) -> bool {
    status is Queued || status is WaitingBody || status is WaitingCapacity || status is Failed
}

/// States before a runner accepts a job.
pub open spec fn unaccepted(status: JobStatusModel) -> bool {
    status is Queued || status is WaitingBody || status is WaitingCapacity
}

/// Whose signature a fact must carry.
pub open spec fn fact_signer_outcome(
    store: StoreModel,
    i: InvocationModel,
    f: FactModel,
    role: Role,
) -> Outcome<Seq<u8>> {
    match role {
        Role::Origin => if i.legacy_observer is Some || !origin_status(f.status) || f.stdout.bytes
            != 0 || f.stderr.bytes != 0 {
            Err(ErrorModel::Protocol("origin cannot publish a runner outcome"@))
        } else {
            Ok(i.origin_key)
        },
        Role::Runner => if i.legacy_observer is Some || unaccepted(f.status) {
            Err(ErrorModel::Protocol("invalid runner fact"@))
        } else {
            Ok(i.runner_key)
        },
        Role::LegacyObserver => match i.legacy_observer {
            Some(observer) => known_key_outcome(store, observer),
            None => Err(ErrorModel::Protocol("missing legacy observer"@)),
        },
    }
}

pub open spec fn validate_fact_outcome(
    store: StoreModel,
    c: CertificateModel,
    signed: SignedFactModel,
    role: Role,
) -> Outcome<()> {
    let f = signed.fact;
    if f.role != role || f.invocation != invocation_key(c) || f.revision == 0 {
        Err(ErrorModel::Protocol("history fact is bound to a different invocation or role"@))
    } else if !digest_ok(f.stdout) || !digest_ok(f.stderr) {
        Err(ErrorModel::Protocol("invalid history output digest or size"@))
    } else {
        match fact_signer_outcome(store, c.invocation, f, role) {
            Err(e) => Err(e),
            Ok(key) => if limits::status_outcome(f.status) is Err {
                limits::status_outcome(f.status)
            } else {
                verify_outcome(fact_message(f), signed.signature, key)
            },
        }
    }
}

fn fact_signer(store: &Store, i: &Invocation, f: &Fact, role: Role) -> (result: Result<Vec<u8>>)
    ensures
        bytes_outcome(result) == fact_signer_outcome(store@, i@, f@, role),
{
    match role {
        Role::Origin => {
            let allowed: bool = match &f.status {
                JobStatus::Queued => true,
                JobStatus::WaitingBody => true,
                JobStatus::WaitingCapacity => true,
                JobStatus::Failed { .. } => true,
                _ => false,
            };
            if i.legacy_observer.is_some() || !allowed || f.stdout.bytes != 0 || f.stderr.bytes
                != 0 {
                return Err(protocol("origin cannot publish a runner outcome"));
            }
            Ok(bytes_dup(&i.origin_key))
        },
        Role::Runner => {
            let early: bool = match &f.status {
                JobStatus::Queued => true,
                JobStatus::WaitingBody => true,
                JobStatus::WaitingCapacity => true,
                _ => false,
            };
            if i.legacy_observer.is_some() || early {
                return Err(protocol("invalid runner fact"));
            }
            Ok(bytes_dup(&i.runner_key))
        },
        Role::LegacyObserver => match &i.legacy_observer {
            Some(observer) => known_key(store, observer),
            None => Err(protocol("missing legacy observer")),
        },
    }
}

/// A fact counts only in its own role, for its own invocation, under its author's key.
pub fn validate_fact(store: &Store, c: &Certificate, signed: &SignedFact, role: Role) -> (result:
    Result<()>)
    ensures
        error::outcome(result) == validate_fact_outcome(store@, c@, signed@, role),
{
    let f = &signed.fact;
    if f.role != role || !f.invocation.same(&key_of(c)) || f.revision == 0 {
        return Err(protocol("history fact is bound to a different invocation or role"));
    }
    if !digest_fits(&f.stdout) || !digest_fits(&f.stderr) {
        return Err(protocol("invalid history output digest or size"));
    }
    let key = match fact_signer(store, &c.invocation, f, role) {
        Ok(key) => key,
        Err(e) => return Err(e),
    };
    if let Err(e) = crate::limits::status(&f.status) {
        return Err(e);
    }
    let json = fact_text(f);
    verify("fact", json.as_str(), &signed.signature, &key)
}

pub open spec fn optional_fact_outcome(
    store: StoreModel,
    c: CertificateModel,
    fact: Option<SignedFactModel>,
    role: Role,
) -> Outcome<()> {
    match fact {
        Some(signed) => validate_fact_outcome(store, c, signed, role),
        None => Ok(()),
    }
}

pub open spec fn validate_record_outcome(store: StoreModel, record: RecordModel) -> Outcome<()> {
    let c = record.certificate;
    if validate_invocation_outcome(store, c) is Err {
        validate_invocation_outcome(store, c)
    } else if c.invocation.legacy_observer is Some {
        if record.runner is Some {
            Err(ErrorModel::Protocol("legacy history is an observation, not a runner signature"@))
        } else {
            optional_fact_outcome(store, c, record.origin, Role::LegacyObserver)
        }
    } else if optional_fact_outcome(store, c, record.origin, Role::Origin) is Err {
        optional_fact_outcome(store, c, record.origin, Role::Origin)
    } else {
        optional_fact_outcome(store, c, record.runner, Role::Runner)
    }
}

/// A record counts when its certificate and every fact in it do.
pub fn validate_record(store: &Store, record: &Record) -> (result: Result<()>)
    ensures
        error::outcome(result) == validate_record_outcome(store@, record@),
{
    let c = &record.certificate;
    if let Err(e) = validate_invocation(store, c) {
        return Err(e);
    }
    if c.invocation.legacy_observer.is_some() {
        if record.runner.is_some() {
            return Err(protocol("legacy history is an observation, not a runner signature"));
        }
        if let Some(fact) = &record.origin {
            return validate_fact(store, c, fact, Role::LegacyObserver);
        }
        return Ok(());
    }
    if let Some(fact) = &record.origin {
        if let Err(e) = validate_fact(store, c, fact, Role::Origin) {
            return Err(e);
        }
    }
    if let Some(fact) = &record.runner {
        return validate_fact(store, c, fact, Role::Runner);
    }
    Ok(())
}

/// The certificate that this machine issues for a job it admitted.
pub open spec fn certificate_invocation(
    store: StoreModel,
    job: crate::types::JobModel,
    legacy: bool,
) -> Outcome<InvocationModel> {
    let origin = known_key_outcome(store, job.from);
    let runner = known_key_outcome(store, job.body);
    if !legacy && origin is Err {
        Err(origin->Err_0)
    } else if !legacy && runner is Err {
        Err(runner->Err_0)
    } else {
        Ok(
            InvocationModel {
                id: job.id,
                from: job.from,
                origin_key: if origin is Ok {
                    origin->Ok_0
                } else {
                    Seq::empty()
                },
                body: job.body,
                runner_key: if runner is Ok {
                    runner->Ok_0
                } else {
                    Seq::empty()
                },
                argv: job.argv,
                retry_of: crate::table::lookup(store.retry_links, job.id),
                legacy_observer: if legacy {
                    Some(store.body_name)
                } else {
                    None
                },
            },
        )
    }
}

pub open spec fn certificate_outcome(
    store: StoreModel,
    job: crate::types::JobModel,
    legacy: bool,
) -> Outcome<CertificateModel> {
    match certificate_invocation(store, job, legacy) {
        Err(e) => Err(e),
        Ok(invocation) => if store.owner_sk.len() != 32 {
            Err(ErrorModel::Protocol("invalid local history identity"@))
        } else {
            Ok(
                CertificateModel {
                    invocation,
                    signature: crypto::ed25519_signature(store.owner_sk, invocation_message(invocation)),
                },
            )
        },
    }
}

fn key_or_empty(result: Result<Vec<u8>>) -> (key: Vec<u8>)
    ensures
        key@ == match bytes_outcome(result) {
            Ok(bytes) => bytes,
            Err(_) => Seq::empty(),
        },
{
    match result {
        Ok(key) => key,
        Err(_) => Vec::new(),
    }
}

/// A job of which this machine may issue a certificate: it is the origin, or,
/// for a job from before certificates, a participant.
pub open spec fn attestable(store: StoreModel, job: crate::types::JobModel, legacy: bool) -> bool {
    &&& job.from == store.body_name || legacy && job.body == store.body_name
    &&& limits::invocation_outcome(job.id, job.argv) is Ok
    &&& crate::table::lookup(store.retry_links, job.id) matches Some(old)
        ==> limits::identifier_outcome(old) is Ok && old != job.id
}

/// Sign the invocation of a job that this machine admitted. What it signs in its
/// own name it also accepts, as does everyone who knows the same keys.
pub fn certificate(store: &Store, job: &crate::types::Job, legacy: bool) -> (result: Result<
    Certificate,
>)
    ensures
        error::outcome(result) == certificate_outcome(store@, job@, legacy),
        result matches Ok(c) ==> crypto::sturdy(store@.owner_sk, c@.signature) && attestable(
            store@,
            job@,
            legacy,
        ) ==> validate_invocation_outcome(store@, c@) is Ok,
{
    let origin = known_key(store, &job.from);
    if !legacy {
        if let Err(e) = origin {
            return Err(e);
        }
    }
    let runner = known_key(store, &job.body);
    if !legacy {
        if let Err(e) = runner {
            return Err(e);
        }
    }
    let retry_of: Option<String> = match store.retry_links.get(&job.id) {
        Some(old) => Some(old.dup()),
        None => None,
    };
    let legacy_observer: Option<BodyId> = if legacy {
        Some(BodyId(store.body_name.dup()))
    } else {
        None
    };
    let invocation = Invocation {
        id: job.id.dup(),
        from: job.from.dup(),
        origin_key: key_or_empty(origin),
        body: job.body.dup(),
        runner_key: key_or_empty(runner),
        argv: job.argv.dup(),
        retry_of,
        legacy_observer,
    };
    if store.owner_sk.len() != 32 {
        return Err(protocol("invalid local history identity"));
    }
    let json = invocation_text(&invocation);
    let text = signed_message("invocation", json.as_str());
    let signature = sign(&store.owner_sk, text.as_str().as_bytes());
    Ok(Certificate { invocation, signature })
}

pub open spec fn signed_fact_outcome(store: StoreModel, fact: FactModel) -> Outcome<
    SignedFactModel,
> {
    if store.owner_sk.len() != 32 {
        Err(ErrorModel::Protocol("invalid local history identity"@))
    } else {
        Ok(
            SignedFactModel {
                fact,
                signature: crypto::ed25519_signature(store.owner_sk, fact_message(fact)),
            },
        )
    }
}

/// Sign a fact that this machine owns.
pub fn sign_fact(store: &Store, fact: Fact) -> (result: Result<SignedFact>)
    ensures
        error::outcome(result) == signed_fact_outcome(store@, fact@),
        result matches Ok(signed) ==> crypto::sturdy(store@.owner_sk, signed@.signature)
            ==> verify_outcome(
            fact_message(fact@),
            signed@.signature,
            crypto::ed25519_public(store@.owner_sk),
        ) is Ok,
{
    if store.owner_sk.len() != 32 {
        return Err(protocol("invalid local history identity"));
    }
    let json = fact_text(&fact);
    let text = signed_message("fact", json.as_str());
    let signature = sign(&store.owner_sk, text.as_str().as_bytes());
    Ok(SignedFact { fact, signature })
}

} // verus!
