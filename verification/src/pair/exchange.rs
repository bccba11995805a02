//! The exchange that turns a phrase, said once, into a key that both sides share.

use spake2::{Ed25519Group, Identity, Password, Spake2};
use vstd::prelude::*;

use crate::error::{Outcome, Result};
use crate::history::wire;
use crate::pair;

verus! {

/// The joining side's identity in an exchange.
pub const ID_A: &'static str = "clix-a";

/// The listening side's identity in an exchange.
pub const ID_B: &'static str = "clix-b";

/// One side of an exchange under way.
#[verifier::external_body]
pub struct Exchange {
    inner: Spake2<Ed25519Group>,
}

/// What an exchange was made with: whether it is the joining side's, the phrase,
/// the two identities, and the message that it sends.
pub uninterp spec fn exchange_of(exchange: Exchange) -> (
    bool,
    Seq<char>,
    Seq<char>,
    Seq<char>,
    Seq<u8>,
);

/// Whether a message is one that a side sends for a phrase.
pub uninterp spec fn spake2_made(joiner: bool, phrase: Seq<char>, message: Seq<u8>) -> bool;

/// The key that a side gets for a phrase and two identities from its own message
/// and the other side's, if it gets one. Its secret number is fixed by its
/// message and the phrase.
pub uninterp spec fn spake2_key(
    joiner: bool,
    phrase: Seq<char>,
    id_a: Seq<char>,
    id_b: Seq<char>,
    ours: Seq<u8>,
    theirs: Seq<u8>,
) -> Option<Seq<u8>>;

/// The first byte of a side's message.
pub open spec fn side_byte(joiner: bool) -> u8 {
    if joiner {
        0x41
    } else {
        0x42
    }
}

/// `spake2::Spake2::start_a`: the joining side's exchange and its message, which
/// has 33 bytes. The message rests on chance.
#[verifier::external_body]
fn start_joiner(phrase: &str, id_a: &str, id_b: &str) -> (started: (Exchange, Vec<u8>))
    ensures
        exchange_of(started.0) == (true, phrase@, id_a@, id_b@, started.1@),
        spake2_made(true, phrase@, started.1@),
        started.1@.len() == 33,
        started.1@[0] == side_byte(true),
{
    let (inner, message) = Spake2::start_a(
        &Password::new(phrase.as_bytes()),
        &Identity::new(id_a.as_bytes()),
        &Identity::new(id_b.as_bytes()),
    );
    (Exchange { inner }, message)
}

/// `spake2::Spake2::start_b`: the listening side's exchange and its message,
/// which has 33 bytes. The message rests on chance.
#[verifier::external_body]
fn start_listener(phrase: &str, id_a: &str, id_b: &str) -> (started: (Exchange, Vec<u8>))
    ensures
        exchange_of(started.0) == (false, phrase@, id_a@, id_b@, started.1@),
        spake2_made(false, phrase@, started.1@),
        started.1@.len() == 33,
        started.1@[0] == side_byte(false),
{
    let (inner, message) = Spake2::start_b(
        &Password::new(phrase.as_bytes()),
        &Identity::new(id_a.as_bytes()),
        &Identity::new(id_b.as_bytes()),
    );
    (Exchange { inner }, message)
}

/// What an exchange gets from a message.
pub open spec fn shared_key(
    made_with: (bool, Seq<char>, Seq<char>, Seq<char>, Seq<u8>),
    theirs: Seq<u8>,
) -> Option<Seq<u8>> {
    spake2_key(made_with.0, made_with.1, made_with.2, made_with.3, made_with.4, theirs)
}

/// The other side's exchange, had it been made with this message.
pub open spec fn other_side(
    made_with: (bool, Seq<char>, Seq<char>, Seq<char>, Seq<u8>),
    theirs: Seq<u8>,
) -> (bool, Seq<char>, Seq<char>, Seq<char>, Seq<u8>) {
    (!made_with.0, made_with.1, made_with.2, made_with.3, theirs)
}

impl Exchange {
    /// `spake2::Spake2::finish`: a key of 32 bytes, or none where the message is
    /// not one of the other side's. A message that the other side sends for the
    /// same phrase always gives a key, and the other side, with the same
    /// identities, gets the same one. What key a message made otherwise gives,
    /// and that another phrase gives another key, is left unsaid.
    #[verifier::external_body]
    fn finish(self, theirs: &[u8]) -> (key: Option<Vec<u8>>)
        ensures
            (match key {
                Some(bytes) => spake2_key(
                    exchange_of(self).0,
                    exchange_of(self).1,
                    exchange_of(self).2,
                    exchange_of(self).3,
                    exchange_of(self).4,
                    theirs@,
                ) == Some(bytes@),
                None => spake2_key(
                    exchange_of(self).0,
                    exchange_of(self).1,
                    exchange_of(self).2,
                    exchange_of(self).3,
                    exchange_of(self).4,
                    theirs@,
                ) is None,
            }),
            key matches Some(bytes) ==> bytes@.len() == 32 && theirs@.len() == 33 && theirs@[0]
                == side_byte(!exchange_of(self).0),
            spake2_made(!exchange_of(self).0, exchange_of(self).1, theirs@) ==> key is Some,
            spake2_made(!exchange_of(self).0, exchange_of(self).1, theirs@) ==> spake2_key(
                !exchange_of(self).0,
                exchange_of(self).1,
                exchange_of(self).2,
                exchange_of(self).3,
                theirs@,
                exchange_of(self).4,
            ) == Some(key->0@),
    {
        self.inner.finish(theirs).ok()
    }
}

/// Begin one side of an exchange for a phrase.
pub fn begin_pairing(joiner: bool, phrase: &str) -> (started: (Exchange, Vec<u8>))
    ensures
        exchange_of(started.0) == (joiner, phrase@, ID_A@, ID_B@, started.1@),
        spake2_made(joiner, phrase@, started.1@),
        started.1@.len() == 33,
        started.1@[0] == side_byte(joiner),
{
    if joiner {
        start_joiner(phrase, ID_A, ID_B)
    } else {
        start_listener(phrase, ID_A, ID_B)
    }
}

/// What an exchange comes to, given the key that it got.
pub open spec fn settled(key: Option<Seq<u8>>) -> Outcome<Seq<u8>> {
    match key {
        Some(bytes) => Ok(bytes),
        None => Err(pair::phrase_mismatch_error()),
    }
}

/// Where the other side's message was made for the same phrase, both sides end
/// with one key.
pub open spec fn agrees(
    made_with: (bool, Seq<char>, Seq<char>, Seq<char>, Seq<u8>),
    theirs: Seq<u8>,
) -> bool {
    spake2_made(!made_with.0, made_with.1, theirs) ==> {
        &&& shared_key(made_with, theirs) is Some
        &&& shared_key(other_side(made_with, theirs), made_with.4) == shared_key(made_with, theirs)
    }
}

/// The shared key of an exchange, or the mismatch that a failed one means.
pub fn settle_exchange(exchange: Exchange, theirs: &Vec<u8>) -> (result: Result<Vec<u8>>)
    ensures
        wire::bytes_outcome(result) == settled(shared_key(exchange_of(exchange), theirs@)),
        result matches Ok(key) ==> key@.len() == 32 && theirs@.len() == 33 && theirs@[0]
            == side_byte(!exchange_of(exchange).0),
        agrees(exchange_of(exchange), theirs@),
{
    pair::exchange_key(exchange.finish(theirs))
}

} // verus!
