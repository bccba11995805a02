//! Which identities a mesh connection may have.
//!
//! A machine's identity is the Ed25519 key that pairing established, presented
//! as a raw public key. The handshake proves possession of the key; what is
//! decided here is which key is acceptable.

use vstd::prelude::*;

use crate::crypto;
use crate::crypto::{key_from_der, key_is_point, key_is_weak, key_to_der, seed_to_pkcs8};
use crate::data::Data;
use crate::error;
use crate::error::{ClixError, ErrorModel, Outcome, Result};
use crate::history::wire;
use crate::search;
use crate::store::{Store, StoreModel};
use crate::text::{bytes_same, cat2};
use crate::types::{Peer, PeerModel};

verus! {

pub open spec fn tls_fault(reason: Seq<char>) -> ErrorModel {
    ErrorModel::Io("mesh authentication failed: "@ + reason)
}

pub fn tls_error(reason: &str) -> (error: ClixError)
    ensures
        error@ == tls_fault(reason@),
{
    ClixError::Io(cat2("mesh authentication failed: ", reason))
}

/// A paired key as it is presented in a handshake.
pub open spec fn presented(pk: Seq<u8>) -> Outcome<Seq<u8>> {
    if pk.len() != 32 {
        Err(tls_fault("invalid Ed25519 public key length"@))
    } else if !crypto::ed25519_point(pk) {
        Err(tls_fault("signature error: Cannot decompress Edwards point"@))
    } else if crypto::ed25519_weak(pk) {
        Err(tls_fault("weak Ed25519 public key"@))
    } else {
        Ok(crypto::spki(pk))
    }
}

pub fn public_key_der(pk: &[u8]) -> (result: Result<Vec<u8>>)
    ensures
        wire::bytes_outcome(result) == presented(pk@),
        result is Ok ==> crypto::ed25519_der_key(presented(pk@)->Ok_0) == Ok::<Seq<u8>, Seq<char>>(pk@),
{
    if pk.len() != 32 {
        return Err(tls_error("invalid Ed25519 public key length"));
    }
    if !key_is_point(pk) {
        return Err(tls_error("signature error: Cannot decompress Edwards point"));
    }
    if key_is_weak(pk) {
        return Err(tls_error("weak Ed25519 public key"));
    }
    Ok(key_to_der(pk))
}

/// The private key document that a machine's handshakes are signed with.
pub fn identity(sk: &[u8]) -> (result: Result<Vec<u8>>)
    ensures
        wire::bytes_outcome(result) == if sk@.len() != 32 {
            Err::<Seq<u8>, ErrorModel>(tls_fault("invalid Ed25519 secret key length"@))
        } else {
            match crypto::ed25519_pkcs8(sk@) {
                Ok(document) => Ok::<Seq<u8>, ErrorModel>(document),
                Err(reason) => Err::<Seq<u8>, ErrorModel>(tls_fault(reason)),
            }
        },
{
    if sk.len() != 32 {
        return Err(tls_error("invalid Ed25519 secret key length"));
    }
    match seed_to_pkcs8(sk) {
        Ok(document) => Ok(document),
        Err(reason) => Err(tls_error(&reason)),
    }
}

/// A server must present the one key that is expected of it, whatever its
/// address or name.
pub fn expected_server(spki: &[u8], end_entity: &[u8], intermediates: usize) -> (accepted: bool)
    ensures
        accepted == (intermediates == 0 && end_entity@ == spki@),
{
    intermediates == 0 && bytes_same(end_entity, spki)
}

/// A peer whose key, as presented, is these bytes.
pub open spec fn presents(der: Seq<u8>) -> spec_fn(PeerModel) -> bool {
    |p: PeerModel| presented(p.owner_pk) == Ok::<Seq<u8>, ErrorModel>(der)
}

pub open spec fn client_accepted(s: StoreModel, end_entity: Seq<u8>, intermediates: nat) -> bool {
    intermediates == 0 && search::first(s.peers, presents(end_entity)) is Some
}

/// A client must present the key of a machine that is paired now.
pub fn paired_client(store: &Store, end_entity: &[u8], intermediates: usize) -> (accepted: bool)
    ensures
        accepted == client_accepted(store@, end_entity@, intermediates as nat),
{
    if intermediates != 0 {
        return false;
    }
    let ghost view = store@.peers;
    let ghost test = presents(end_entity@);
    let mut i: usize = 0;
    while i < store.peers.len()
        invariant
            i <= store.peers.len(),
            view == store@.peers,
            test == presents(end_entity@),
            intermediates == 0,
            forall|j: int| 0 <= j < i ==> !test(#[trigger] view[j]),
        decreases store.peers.len() - i,
    {
        assert(view[i as int] == store.peers@[i as int]@);
        if let Ok(der) = public_key_der(&store.peers[i].owner_pk) {
            if bytes_same(&der, end_entity) {
                proof {
                    search::lemma_first_at(view, test, i as int);
                }
                return true;
            }
        }
        i += 1;
    }
    proof {
        search::lemma_first_none(view, test);
    }
    false
}

pub open spec fn peer_key_outcome(certs: Option<Seq<Seq<u8>>>) -> Outcome<Seq<u8>> {
    match certs {
        Some(certs) if certs.len() == 1 => match crypto::ed25519_der_key(certs[0]) {
            Ok(key) => Ok(key),
            Err(reason) => Err(tls_fault(reason)),
        },
        _ => Err(tls_fault("missing or ambiguous peer identity"@)),
    }
}

pub open spec fn certificates(certs: Option<Vec<Vec<u8>>>) -> Option<Seq<Seq<u8>>> {
    match certs {
        Some(certs) => Some(Seq::new(certs@.len(), |i: int| certs@[i]@)),
        None => None,
    }
}

/// The one identity that a completed handshake returned.
pub fn peer_pk(certs: Option<Vec<Vec<u8>>>) -> (result: Result<Vec<u8>>)
    ensures
        wire::bytes_outcome(result) == peer_key_outcome(certificates(certs)),
{
    match certs {
        Some(certs) => {
            if certs.len() != 1 {
                return Err(tls_error("missing or ambiguous peer identity"));
            }
            match key_from_der(&certs[0]) {
                Ok(key) => Ok(key),
                Err(reason) => Err(tls_error(&reason)),
            }
        },
        None => Err(tls_error("missing or ambiguous peer identity")),
    }
}

pub open spec fn has_key(pk: Seq<u8>) -> spec_fn(PeerModel) -> bool {
    |p: PeerModel| p.owner_pk == pk
}

pub open spec fn identified(s: StoreModel, pk: Seq<u8>) -> Outcome<PeerModel> {
    match search::found(s.peers, has_key(pk)) {
        Some(peer) => Ok(peer),
        None => Err(tls_fault("unknown paired identity"@)),
    }
}

/// The paired machine that a key belongs to.
pub fn identify(store: &Store, pk: &[u8]) -> (result: Result<Peer>)
    ensures
        error::outcome(result) == identified(store@, pk@),
{
    let ghost view = store@.peers;
    let ghost test = has_key(pk@);
    let mut i: usize = 0;
    while i < store.peers.len()
        invariant
            i <= store.peers.len(),
            view == store@.peers,
            test == has_key(pk@),
            forall|j: int| 0 <= j < i ==> !test(#[trigger] view[j]),
        decreases store.peers.len() - i,
    {
        assert(view[i as int] == store.peers@[i as int]@);
        if bytes_same(&store.peers[i].owner_pk, pk) {
            proof {
                search::lemma_first_at(view, test, i as int);
            }
            return Ok(store.peers[i].dup());
        }
        i += 1;
    }
    proof {
        search::lemma_first_none(view, test);
    }
    Err(tls_error("unknown paired identity"))
}

/// The application protocol of the mesh: `clix/1`.
pub open spec fn protocol_name() -> Seq<u8> {
    seq![99u8, 108u8, 105u8, 120u8, 47u8, 49u8]
}

pub fn alpn() -> (name: Vec<u8>)
    ensures
        name@ == protocol_name(),
{
    let name: Vec<u8> = vec![99u8, 108u8, 105u8, 120u8, 47u8, 49u8];
    assert(name@ =~= protocol_name());
    name
}

/// Both ends must have agreed on the mesh's own protocol.
pub fn check_alpn(negotiated: Option<Vec<u8>>) -> (result: Result<()>)
    ensures
        error::outcome(result) == match negotiated {
            Some(name) if name@ == protocol_name() => Ok::<(), ErrorModel>(()),
            _ => Err::<(), ErrorModel>(tls_fault("Clix protocol was not negotiated"@)),
        },
{
    match negotiated {
        Some(name) => if bytes_same(&name, &alpn()) {
            Ok(())
        } else {
            Err(tls_error("Clix protocol was not negotiated"))
        },
        None => Err(tls_error("Clix protocol was not negotiated")),
    }
}

/// A client that is let in is a machine that is paired, under the key it
/// presented, and a machine that is not paired any more is not let in.
pub proof fn law_only_paired_clients(s: StoreModel, end_entity: Seq<u8>, intermediates: nat)
    ensures
        client_accepted(s, end_entity, intermediates) <==> intermediates == 0 && exists|i: int|
            0 <= i < s.peers.len() && presented((#[trigger] s.peers[i]).owner_pk) == Ok::<
                Seq<u8>,
                ErrorModel,
            >(end_entity),
{
    crate::search::lemma_first(s.peers, presents(end_entity));
    if exists|i: int|
        0 <= i < s.peers.len() && presented((#[trigger] s.peers[i]).owner_pk) == Ok::<
            Seq<u8>,
            ErrorModel,
        >(end_entity) {
        let i = choose|i: int|
            0 <= i < s.peers.len() && presented((#[trigger] s.peers[i]).owner_pk) == Ok::<
                Seq<u8>,
                ErrorModel,
            >(end_entity);
        assert(presents(end_entity)(s.peers[i]));
    }
}

} // verus!
