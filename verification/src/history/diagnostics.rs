//! How far this machine's history reaches.

use vstd::prelude::*;

use crate::data::Data;
use crate::history::record::EntryModel;
use crate::search;
use crate::store::{Store, StoreModel};
use crate::table;
use crate::types::{JobModel, Peer, PeerModel};

verus! {

/// What has arrived from one peer.
#[derive(Debug, Clone, PartialEq, Eq)]
pub struct PeerDiagnostics {
    pub body: String,
    /// All that the peer can show of known authors has arrived.
    pub complete: bool,
    pub last_contact: Option<u64>,
    pub error: Option<String>,
    pub unknown_authors: bool,
}

/// What a `PeerDiagnostics` says.
#[verifier::ext_equal]
pub struct PeerDiagnosticsModel {
    pub body: Seq<char>,
    pub complete: bool,
    pub last_contact: Option<u64>,
    pub error: Option<Seq<char>>,
    pub unknown_authors: bool,
}

impl View for PeerDiagnostics {
    type V = PeerDiagnosticsModel;

    open spec fn view(&self) -> PeerDiagnosticsModel {
        PeerDiagnosticsModel {
            body: self.body.deep_view(),
            complete: self.complete,
            last_contact: self.last_contact.deep_view(),
            error: self.error.deep_view(),
            unknown_authors: self.unknown_authors,
        }
    }
}

impl DeepView for PeerDiagnostics {
    type V = PeerDiagnosticsModel;

    open spec fn deep_view(&self) -> PeerDiagnosticsModel {
        self@
    }
}

impl Data for PeerDiagnostics {
    fn dup(&self) -> (copy: Self) {
        PeerDiagnostics {
            body: self.body.dup(),
            complete: self.complete,
            last_contact: self.last_contact.dup(),
            error: self.error.dup(),
            unknown_authors: self.unknown_authors,
        }
    }

    fn same(&self, other: &Self) -> (equal: bool) {
        self.body.same(&other.body)
            && self.complete == other.complete
            && self.last_contact.same(&other.last_contact)
            && self.error.same(&other.error)
            && self.unknown_authors == other.unknown_authors
    }
}

/// What is kept, and what has arrived from whom.
#[derive(Debug, Clone, PartialEq, Eq)]
pub struct Diagnostics {
    pub peers: Vec<PeerDiagnostics>,
    pub records: usize,
    pub local_sequence: u64,
    pub unpublished_local_records: usize,
    pub legacy_records: usize,
}

/// What a `Diagnostics` says.
#[verifier::ext_equal]
pub struct DiagnosticsModel {
    pub peers: Seq<PeerDiagnosticsModel>,
    pub records: usize,
    pub local_sequence: u64,
    pub unpublished_local_records: usize,
    pub legacy_records: usize,
}

impl View for Diagnostics {
    type V = DiagnosticsModel;

    open spec fn view(&self) -> DiagnosticsModel {
        DiagnosticsModel {
            peers: self.peers.deep_view(),
            records: self.records,
            local_sequence: self.local_sequence,
            unpublished_local_records: self.unpublished_local_records,
            legacy_records: self.legacy_records,
        }
    }
}

impl DeepView for Diagnostics {
    type V = DiagnosticsModel;

    open spec fn deep_view(&self) -> DiagnosticsModel {
        self@
    }
}

impl Data for Diagnostics {
    fn dup(&self) -> (copy: Self) {
        Diagnostics {
            peers: self.peers.dup(),
            records: self.records,
            local_sequence: self.local_sequence,
            unpublished_local_records: self.unpublished_local_records,
            legacy_records: self.legacy_records,
        }
    }

    fn same(&self, other: &Self) -> (equal: bool) {
        self.peers.same(&other.peers)
            && self.records == other.records
            && self.local_sequence == other.local_sequence
            && self.unpublished_local_records == other.unpublished_local_records
            && self.legacy_records == other.legacy_records
    }
}

pub open spec fn peer_diagnosis(s: StoreModel, peer: PeerModel) -> PeerDiagnosticsModel {
    match table::lookup(s.history.peers, peer.name) {
        None => PeerDiagnosticsModel {
            body: peer.name,
            complete: false,
            last_contact: None,
            error: None,
            unknown_authors: false,
        },
        Some(p) => PeerDiagnosticsModel {
            body: peer.name,
            complete: p.complete && !p.unknown_authors && p.error is None && p.last_contact is Some,
            last_contact: p.last_contact,
            error: p.error,
            unknown_authors: p.unknown_authors,
        },
    }
}

/// A job of this machine's without a record in the history.
pub open spec fn unpublished(s: StoreModel) -> spec_fn(JobModel) -> bool {
    |j: JobModel|
        match table::lookup(s.job_certificates, j.id) {
            Some(key) => !table::holds(s.history.entries, key),
            None => true,
        }
}

/// A record that its keeper observed, from before records were signed.
pub open spec fn legacy() -> spec_fn((Seq<char>, EntryModel)) -> bool {
    |row: (Seq<char>, EntryModel)|
        row.1.record.certificate.invocation.legacy_observer is Some
}

pub open spec fn diagnosis(s: StoreModel) -> DiagnosticsModel {
    DiagnosticsModel {
        peers: Seq::new(s.peers.len(), |i: int| peer_diagnosis(s, s.peers[i])),
        records: s.history.entries.len() as usize,
        local_sequence: s.history.clock,
        unpublished_local_records: search::kept(s.jobs, unpublished(s)).len() as usize,
        legacy_records: search::kept(s.history.entries, legacy()).len() as usize,
    }
}

fn diagnose_peer(store: &Store, peer: &Peer) -> (report: PeerDiagnostics)
    ensures
        report@ == peer_diagnosis(store@, peer@),
{
    match store.history.peers.get(&peer.name.0) {
        None => PeerDiagnostics {
            body: peer.name.0.dup(),
            complete: false,
            last_contact: None,
            error: None,
            unknown_authors: false,
        },
        Some(p) => PeerDiagnostics {
            body: peer.name.0.dup(),
            complete: p.complete && !p.unknown_authors && p.error.is_none()
                && p.last_contact.is_some(),
            last_contact: p.last_contact,
            error: p.error.dup(),
            unknown_authors: p.unknown_authors,
        },
    }
}

fn count_unpublished(store: &Store) -> (n: usize)
    ensures
        n == search::kept(store@.jobs, unpublished(store@)).len(),
{
    let ghost view = store@.jobs;
    let ghost test = unpublished(store@);
    let mut n: usize = 0;
    let mut i: usize = 0;
    assert(view.take(0) =~= Seq::<JobModel>::empty());
    while i < store.jobs.len()
        invariant
            i <= store.jobs.len(),
            view == store@.jobs,
            test == unpublished(store@),
            n == search::kept(view.take(i as int), test).len(),
            n <= i,
        decreases store.jobs.len() - i,
    {
        assert(view[i as int] == store.jobs@[i as int]@);
        proof {
            search::lemma_kept_step(view, test, i as int);
        }
        let shown: bool = match store.job_certificates.get(&store.jobs[i].id) {
            Some(key) => store.history.entries.has(key),
            None => false,
        };
        if !shown {
            n += 1;
        }
        i += 1;
    }
    assert(view.take(i as int) =~= view);
    n
}

fn count_legacy(store: &Store) -> (n: usize)
    ensures
        n == search::kept(store@.history.entries, legacy()).len(),
{
    let ghost view = store@.history.entries;
    let mut n: usize = 0;
    let mut i: usize = 0;
    assert(view.take(0) =~= Seq::<(Seq<char>, EntryModel)>::empty());
    while i < store.history.entries.len()
        invariant
            i <= view.len(),
            view == store@.history.entries,
            view == store.history.entries.deep_view(),
            n == search::kept(view.take(i as int), legacy()).len(),
            n <= i,
        decreases view.len() - i,
    {
        proof {
            search::lemma_kept_step(view, legacy(), i as int);
        }
        let entry = store.history.entries.value_at(i);
        if entry.record.certificate.invocation.legacy_observer.is_some() {
            n += 1;
        }
        i += 1;
    }
    assert(view.take(i as int) =~= view);
    n
}

pub fn diagnostics(store: &Store) -> (report: Diagnostics)
    ensures
        report@ == diagnosis(store@),
{
    let ghost view = store@.peers;
    let ghost all = diagnosis(store@).peers;
    let mut peers: Vec<PeerDiagnostics> = Vec::new();
    let mut i: usize = 0;
    assert(peers.deep_view() =~= all.take(0));
    while i < store.peers.len()
        invariant
            i <= store.peers.len(),
            view == store@.peers,
            all == diagnosis(store@).peers,
            peers.deep_view() == all.take(i as int),
        decreases store.peers.len() - i,
    {
        let ghost before = peers.deep_view();
        assert(view[i as int] == store.peers@[i as int]@);
        let report = diagnose_peer(store, &store.peers[i]);
        let ghost item = report@;
        peers.push(report);
        assert(peers.deep_view() =~= before.push(item));
        assert(all.take(i + 1) =~= before.push(item));
        i += 1;
    }
    assert(all.take(i as int) =~= all);
    Diagnostics {
        peers,
        records: store.history.entries.len(),
        local_sequence: store.history.clock,
        unpublished_local_records: count_unpublished(store),
        legacy_records: count_legacy(store),
    }
}

} // verus!
