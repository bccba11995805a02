//! The order of a pairing: which message comes next, on either side.

use vstd::prelude::*;

use crate::data::{bytes_dup, Data};
use crate::error;
use crate::error::{protocol, ClixError, ErrorModel, Outcome, Result};
use crate::pair;
use crate::pair::exchange;
use crate::pair::exchange::{begin_pairing, settle_exchange, Exchange};
use crate::pair::{identity_frame, open_identity, phrase_mismatch, search_failed};
use crate::tailscale::{PeerAddr, PeerAddrModel};
use crate::text;
use crate::text::{bytes_same, cat3, decimal_text, owned};
use crate::types::{Peer, PeerModel};

verus! {

/// Who a machine says it is.
#[derive(Debug, Clone, PartialEq, Eq)]
pub struct PairIdentity {
    pub name: String,
    pub owner_pk: Vec<u8>,
    pub addr: Option<String>,
}

/// What a `PairIdentity` says.
#[verifier::ext_equal]
pub struct PairIdentityModel {
    pub name: Seq<char>,
    pub owner_pk: Seq<u8>,
    pub addr: Option<Seq<char>>,
}

impl View for PairIdentity {
    type V = PairIdentityModel;

    open spec fn view(&self) -> PairIdentityModel {
        PairIdentityModel {
            name: self.name.deep_view(),
            owner_pk: self.owner_pk@,
            addr: self.addr.deep_view(),
        }
    }
}

impl DeepView for PairIdentity {
    type V = PairIdentityModel;

    open spec fn deep_view(&self) -> PairIdentityModel {
        self@
    }
}

impl Data for PairIdentity {
    fn dup(&self) -> (copy: Self) {
        PairIdentity {
            name: self.name.dup(),
            owner_pk: bytes_dup(&self.owner_pk),
            addr: self.addr.dup(),
        }
    }

    fn same(&self, other: &Self) -> (equal: bool) {
        self.name.same(&other.name)
            && bytes_same(&self.owner_pk, &other.owner_pk)
            && self.addr.same(&other.addr)
    }
}

/// Where a pairing stands.
#[derive(Debug, Clone, Copy, PartialEq, Eq, Structural)]
pub enum PairPhase {
    /// Our message of the exchange goes out.
    Offering,
    /// Theirs is awaited.
    Awaiting,
    /// We say who we are.
    Telling,
    /// Who they are is awaited.
    Learning,
    /// What they sent is read.
    Reading,
    /// They are recorded.
    Keeping,
    Finished,
    Broken,
}

/// What came of an action.
#[derive(Debug)]
pub enum PairEvent {
    Sent,
    Received(Vec<u8>),
    /// Nothing could be sent or received.
    Lost,
    /// What the identity reads as, if it reads at all.
    Understood(Option<PairIdentity>),
    /// They are recorded, or could not be.
    Kept(Result<Peer>),
}

#[verifier::ext_equal]
pub enum PairEventModel {
    Sent,
    Received(Seq<u8>),
    Lost,
    Understood(Option<PairIdentityModel>),
    Kept(Outcome<PeerModel>),
}

impl View for PairEvent {
    type V = PairEventModel;

    open spec fn view(&self) -> PairEventModel {
        match self {
            PairEvent::Sent => PairEventModel::Sent,
            PairEvent::Received(bytes) => PairEventModel::Received(bytes@),
            PairEvent::Lost => PairEventModel::Lost,
            PairEvent::Understood(who) => PairEventModel::Understood(who.deep_view()),
            PairEvent::Kept(kept) => PairEventModel::Kept(error::outcome(*kept)),
        }
    }
}

/// What is to be done next.
#[derive(Debug)]
pub enum PairAction {
    Send(Vec<u8>),
    Receive,
    /// Read an identity from these bytes.
    Read(Vec<u8>),
    Keep(PairIdentity),
    Done,
}

#[verifier::ext_equal]
pub enum PairActionModel {
    Send(Seq<u8>),
    Receive,
    Read(Seq<u8>),
    Keep(PairIdentityModel),
    Done,
}

impl View for PairAction {
    type V = PairActionModel;

    open spec fn view(&self) -> PairActionModel {
        match self {
            PairAction::Send(bytes) => PairActionModel::Send(bytes@),
            PairAction::Receive => PairActionModel::Receive,
            PairAction::Read(bytes) => PairActionModel::Read(bytes@),
            PairAction::Keep(who) => PairActionModel::Keep(who@),
            PairAction::Done => PairActionModel::Done,
        }
    }
}

/// One side of a pairing.
pub struct PairRun {
    joiner: bool,
    name: String,
    owner_pk: Vec<u8>,
    addr: String,
    phase: PairPhase,
    exchange: Option<Exchange>,
    ours: Vec<u8>,
    theirs: Vec<u8>,
    key: Vec<u8>,
    payload: Vec<u8>,
    who: Option<PairIdentity>,
}

#[verifier::ext_equal]
pub struct PairRunModel {
    pub joiner: bool,
    /// Who this machine is.
    pub name: Seq<char>,
    pub owner_pk: Seq<u8>,
    pub addr: Seq<char>,
    pub phase: PairPhase,
    /// What the exchange was made with, until it is settled.
    pub exchange: Option<(bool, Seq<char>, Seq<char>, Seq<char>, Seq<u8>)>,
    pub ours: Seq<u8>,
    /// The message that came before ours went out.
    pub theirs: Seq<u8>,
    pub key: Seq<u8>,
    pub payload: Seq<u8>,
    pub who: Option<PairIdentityModel>,
}

impl View for PairRun {
    type V = PairRunModel;

    closed spec fn view(&self) -> PairRunModel {
        PairRunModel {
            joiner: self.joiner,
            name: self.name@,
            owner_pk: self.owner_pk@,
            addr: self.addr@,
            phase: self.phase,
            exchange: match self.exchange {
                Some(exchange) => Some(exchange::exchange_of(exchange)),
                None => None,
            },
            ours: self.ours@,
            theirs: self.theirs@,
            key: self.key@,
            payload: self.payload@,
            who: self.who.deep_view(),
        }
    }
}

pub open spec fn out_of_order() -> ErrorModel {
    ErrorModel::Protocol("pairing is out of order"@)
}

impl PairRunModel {
    pub open spec fn broken(self) -> PairRunModel {
        PairRunModel { phase: PairPhase::Broken, exchange: None, ..self }
    }

    pub open spec fn fails(self, e: ErrorModel) -> (PairRunModel, Outcome<()>) {
        (self.broken(), Err(e))
    }

    pub open spec fn goes_to(self, phase: PairPhase) -> (PairRunModel, Outcome<()>) {
        (PairRunModel { phase, ..self }, Ok(()))
    }

    /// The exchange settled with the other side's message.
    pub open spec fn settles(self, theirs: Seq<u8>, phase: PairPhase) -> (PairRunModel, Outcome<()>) {
        match self.exchange {
            None => self.fails(out_of_order()),
            Some(made_with) => match exchange::settled(exchange::shared_key(made_with, theirs)) {
                Err(e) => self.fails(e),
                Ok(key) => (PairRunModel { phase, key, exchange: None, ..self }, Ok(())),
            },
        }
    }

    pub open spec fn next(self) -> PairActionModel {
        match self.phase {
            PairPhase::Offering => PairActionModel::Send(self.ours),
            PairPhase::Awaiting => PairActionModel::Receive,
            PairPhase::Telling => PairActionModel::Send(
                pair::sealed(
                    self.key,
                    vstd::utf8::encode_utf8(
                        pair::identity_json(self.name, self.owner_pk, self.addr),
                    ),
                ),
            ),
            PairPhase::Learning => PairActionModel::Receive,
            PairPhase::Reading => PairActionModel::Read(self.payload),
            PairPhase::Keeping => match self.who {
                Some(who) => PairActionModel::Keep(who),
                None => PairActionModel::Done,
            },
            PairPhase::Finished => PairActionModel::Done,
            PairPhase::Broken => PairActionModel::Done,
        }
    }

    /// The joining side offers first and says first who it is. The listening side
    /// says who it is only to a machine that proved to know the phrase and that it
    /// has recorded.
    pub open spec fn after(self, event: PairEventModel) -> (PairRunModel, Outcome<()>) {
        match (self.phase, event) {
            (PairPhase::Offering, PairEventModel::Sent) => if self.joiner {
                self.goes_to(PairPhase::Awaiting)
            } else {
                self.settles(self.theirs, PairPhase::Learning)
            },
            (PairPhase::Awaiting, PairEventModel::Received(bytes)) => if self.joiner {
                self.settles(bytes, PairPhase::Telling)
            } else {
                (PairRunModel { theirs: bytes, phase: PairPhase::Offering, ..self }, Ok(()))
            },
            (PairPhase::Telling, PairEventModel::Sent) => if self.joiner {
                self.goes_to(PairPhase::Learning)
            } else {
                self.goes_to(PairPhase::Finished)
            },
            (PairPhase::Learning, PairEventModel::Received(frame)) => match pair::opened(
                self.key,
                frame,
            ) {
                Err(e) => self.fails(e),
                Ok(payload) => (
                    PairRunModel { payload, phase: PairPhase::Reading, ..self },
                    Ok(()),
                ),
            },
            (PairPhase::Reading, PairEventModel::Understood(Some(who))) => (
                PairRunModel { who: Some(who), phase: PairPhase::Keeping, ..self },
                Ok(()),
            ),
            (PairPhase::Reading, PairEventModel::Understood(None)) => self.fails(
                pair::phrase_mismatch_error(),
            ),
            (PairPhase::Keeping, PairEventModel::Kept(Ok(_))) => if self.joiner {
                self.goes_to(PairPhase::Finished)
            } else {
                self.goes_to(PairPhase::Telling)
            },
            (PairPhase::Keeping, PairEventModel::Kept(Err(e))) => self.fails(e),
            (PairPhase::Offering, PairEventModel::Lost) => self.fails(pair::phrase_mismatch_error()),
            (PairPhase::Awaiting, PairEventModel::Lost) => self.fails(pair::phrase_mismatch_error()),
            (PairPhase::Telling, PairEventModel::Lost) => self.fails(pair::phrase_mismatch_error()),
            (PairPhase::Learning, PairEventModel::Lost) => self.fails(pair::phrase_mismatch_error()),
            _ => self.fails(out_of_order()),
        }
    }

    /// The other side's message that an event would settle the exchange with.
    pub open spec fn settling(self, event: PairEventModel) -> Option<Seq<u8>> {
        match (self.phase, event) {
            (PairPhase::Offering, PairEventModel::Sent) if !self.joiner => Some(self.theirs),
            (PairPhase::Awaiting, PairEventModel::Received(bytes)) if self.joiner => Some(bytes),
            _ => None,
        }
    }
}

impl PairRun {
    /// Begin one side of a pairing by phrase, as the machine of this name and key
    /// at this address.
    pub fn start(joiner: bool, phrase: &str, name: String, owner_pk: Vec<u8>, addr: String) -> (run:
        PairRun)
        ensures
            run@ == (PairRunModel {
                joiner,
                name: name@,
                owner_pk: owner_pk@,
                addr: addr@,
                phase: if joiner {
                    PairPhase::Offering
                } else {
                    PairPhase::Awaiting
                },
                exchange: Some(
                    (joiner, phrase@, exchange::ID_A@, exchange::ID_B@, run@.ours),
                ),
                ours: run@.ours,
                theirs: Seq::empty(),
                key: Seq::empty(),
                payload: Seq::empty(),
                who: None,
            }),
            exchange::spake2_made(joiner, phrase@, run@.ours),
    {
        let (exchange, ours) = begin_pairing(joiner, phrase);
        let phase = if joiner {
            PairPhase::Offering
        } else {
            PairPhase::Awaiting
        };
        PairRun {
            joiner,
            name,
            owner_pk,
            addr,
            phase,
            exchange: Some(exchange),
            ours,
            theirs: Vec::new(),
            key: Vec::new(),
            payload: Vec::new(),
            who: None,
        }
    }

    pub fn next(&self) -> (action: PairAction)
        ensures
            action@ == self@.next(),
    {
        match self.phase {
            PairPhase::Offering => PairAction::Send(bytes_dup(&self.ours)),
            PairPhase::Awaiting => PairAction::Receive,
            PairPhase::Telling => PairAction::Send(
                identity_frame(&self.key, &self.name, &self.owner_pk, &self.addr),
            ),
            PairPhase::Learning => PairAction::Receive,
            PairPhase::Reading => PairAction::Read(bytes_dup(&self.payload)),
            PairPhase::Keeping => match &self.who {
                Some(who) => PairAction::Keep(who.dup()),
                None => PairAction::Done,
            },
            PairPhase::Finished => PairAction::Done,
            PairPhase::Broken => PairAction::Done,
        }
    }

    fn fail(&mut self, e: ClixError) -> (result: Result<()>)
        ensures
            (final(self)@, error::outcome(result)) == old(self)@.fails(e@),
    {
        self.phase = PairPhase::Broken;
        self.exchange = None;
        Err(e)
    }

    fn settle(&mut self, theirs: &Vec<u8>, phase: PairPhase) -> (result: Result<()>)
        ensures
            (final(self)@, error::outcome(result)) == old(self)@.settles(theirs@, phase),
            old(self)@.exchange matches Some(made_with) ==> exchange::agrees(made_with, theirs@),
    {
        match self.exchange.take() {
            None => {
                self.phase = PairPhase::Broken;
                Err(protocol("pairing is out of order"))
            },
            Some(exchange) => match settle_exchange(exchange, theirs) {
                Ok(key) => {
                    self.key = key;
                    self.phase = phase;
                    Ok(())
                },
                Err(e) => {
                    self.phase = PairPhase::Broken;
                    Err(e)
                },
            },
        }
    }

    /// Take in what came of an action; an error ends the pairing. Where the other
    /// side's message was made for the same phrase, the exchange succeeds, and
    /// both sides hold the same key.
    pub fn advance(&mut self, event: PairEvent) -> (result: Result<()>)
        ensures
            (final(self)@, error::outcome(result)) == old(self)@.after(event@),
            old(self)@.exchange matches Some(made_with) ==> (old(self)@.settling(event@) matches Some(
                theirs,
            ) ==> exchange::agrees(made_with, theirs)),
    {
        match (self.phase, event) {
            (PairPhase::Offering, PairEvent::Sent) => if self.joiner {
                self.phase = PairPhase::Awaiting;
                Ok(())
            } else {
                let theirs = bytes_dup(&self.theirs);
                self.settle(&theirs, PairPhase::Learning)
            },
            (PairPhase::Awaiting, PairEvent::Received(bytes)) => if self.joiner {
                self.settle(&bytes, PairPhase::Telling)
            } else {
                self.theirs = bytes;
                self.phase = PairPhase::Offering;
                Ok(())
            },
            (PairPhase::Telling, PairEvent::Sent) => {
                self.phase = if self.joiner {
                    PairPhase::Learning
                } else {
                    PairPhase::Finished
                };
                Ok(())
            },
            (PairPhase::Learning, PairEvent::Received(frame)) => match open_identity(
                &self.key,
                &frame,
            ) {
                Ok(payload) => {
                    self.payload = payload;
                    self.phase = PairPhase::Reading;
                    Ok(())
                },
                Err(e) => self.fail(e),
            },
            (PairPhase::Reading, PairEvent::Understood(Some(who))) => {
                self.who = Some(who);
                self.phase = PairPhase::Keeping;
                Ok(())
            },
            (PairPhase::Reading, PairEvent::Understood(None)) => self.fail(phrase_mismatch()),
            (PairPhase::Keeping, PairEvent::Kept(Ok(_))) => {
                self.phase = if self.joiner {
                    PairPhase::Finished
                } else {
                    PairPhase::Telling
                };
                Ok(())
            },
            (PairPhase::Keeping, PairEvent::Kept(Err(e))) => self.fail(e),
            (PairPhase::Offering, PairEvent::Lost) => self.fail(phrase_mismatch()),
            (PairPhase::Awaiting, PairEvent::Lost) => self.fail(phrase_mismatch()),
            (PairPhase::Telling, PairEvent::Lost) => self.fail(phrase_mismatch()),
            (PairPhase::Learning, PairEvent::Lost) => self.fail(phrase_mismatch()),
            _ => self.fail(protocol("pairing is out of order")),
        }
    }
}

/// A machine that fails to prove the phrase is neither recorded nor told anything:
/// past the exchange a pairing goes on only with an identity that opens under the
/// shared key.
pub proof fn law_unproved_is_not_kept(run: PairRunModel, frame: Seq<u8>)
    requires
        run.phase == PairPhase::Learning,
        pair::opened(run.key, frame) is Err,
    ensures
        run.after(PairEventModel::Received(frame)).1 == Err::<(), ErrorModel>(
            pair::phrase_mismatch_error(),
        ),
        run.after(PairEventModel::Received(frame)).0.next() == PairActionModel::Done,
{
}

/// Both sides of a pairing whose messages arrived hold one key, and what one then
/// says of itself the other opens.
pub proof fn law_pairing_meets(joining: PairRunModel, listening: PairRunModel)
    requires
        joining.joiner,
        joining.phase == PairPhase::Awaiting,
        !listening.joiner,
        listening.phase == PairPhase::Offering,
        joining.exchange matches Some(a) && a.4 == joining.ours && a.0 && listening.exchange == Some(
            exchange::other_side(a, listening.ours),
        ) && listening.theirs == joining.ours && exchange::spake2_made(false, a.1, listening.ours)
            && exchange::agrees(a, listening.ours),
    ensures
        ({
            let (told, first) = joining.after(PairEventModel::Received(listening.ours));
            let (heard, second) = listening.after(PairEventModel::Sent);
            &&& first is Ok && second is Ok
            &&& told.key == heard.key
            &&& told.phase == PairPhase::Telling && heard.phase == PairPhase::Learning
        }),
{
}

/// A search for a machine that waits to be joined, through every one that the
/// tailnet shows.
pub struct JoinSearch {
    peers: Vec<PeerAddr>,
    port: u16,
    tried: usize,
    last: Option<ClixError>,
}

#[verifier::ext_equal]
pub struct JoinSearchModel {
    pub peers: Seq<PeerAddrModel>,
    pub port: u16,
    pub tried: nat,
    /// Why the last machine could not be joined.
    pub last: Option<ErrorModel>,
}

impl JoinSearchModel {
    /// The address to try next.
    pub open spec fn next(self) -> Option<Seq<char>> {
        if self.tried < self.peers.len() {
            Some(
                self.peers[self.tried as int].ipv4 + ":"@ + text::decimal(self.port as nat),
            )
        } else {
            None
        }
    }

    pub open spec fn failed(self, e: ErrorModel) -> JoinSearchModel {
        JoinSearchModel {
            tried: if self.tried < self.peers.len() {
                self.tried + 1
            } else {
                self.tried
            },
            last: Some(e),
            ..self
        }
    }
}

impl View for JoinSearch {
    type V = JoinSearchModel;

    closed spec fn view(&self) -> JoinSearchModel {
        JoinSearchModel {
            peers: self.peers.deep_view(),
            port: self.port,
            tried: self.tried as nat,
            last: match self.last {
                Some(e) => Some(e@),
                None => None,
            },
        }
    }
}

impl JoinSearch {
    pub fn start(peers: Vec<PeerAddr>, port: u16) -> (search: JoinSearch)
        ensures
            search@ == (JoinSearchModel { peers: peers.deep_view(), port, tried: 0, last: None }),
    {
        JoinSearch { peers, port, tried: 0, last: None }
    }

    pub fn next(&self) -> (addr: Option<String>)
        ensures
            addr.deep_view() == self@.next(),
    {
        if self.tried < self.peers.len() {
            assert(self@.peers[self.tried as int] == self.peers@[self.tried as int]@);
            Some(cat3(&self.peers[self.tried].ipv4, ":", &decimal_text(self.port as u64)))
        } else {
            None
        }
    }

    /// The machine could not be joined.
    pub fn failed(&mut self, e: ClixError)
        ensures
            final(self)@ == old(self)@.failed(e@),
    {
        self.last = Some(e);
        if self.tried < self.peers.len() {
            self.tried = self.tried + 1;
        }
    }

    /// The machine did not answer in time.
    pub fn silent(&mut self)
        ensures
            final(self)@ == old(self)@.failed(ErrorModel::Io("no peer answered"@)),
    {
        self.failed(ClixError::Io(owned("no peer answered")));
    }

    /// Why a search that tried everyone found no one: the last machine's reason.
    pub fn end(self) -> (error: ClixError)
        ensures
            error@ == match self@.last {
                Some(e) => e,
                None => ErrorModel::Io("no online Tailscale peers"@),
            },
    {
        search_failed(self.last)
    }
}

} // verus!
