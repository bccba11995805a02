//! Publishing what this machine owns.

use vstd::prelude::*;
use vstd::string::*;

use crate::crypto;
use crate::crypto::hash;
use crate::data::Data;
use crate::error;
use crate::error::{protocol, ErrorModel, Outcome, Result};
use crate::history::record::{
    CapturedOutput, CapturedOutputModel, Certificate, CertificateModel, Entry, EntryModel, Fact,
    FactModel, History, HistoryModel, OutputRef, OutputRefModel, Record, RecordModel, Role,
    SignedFact, SignedFactModel,
};
use crate::history::wire;
use crate::history::wire::{certificate, key_of, sign_fact};
use crate::job;
use crate::job::is_terminal;
use crate::json;
use crate::json::{json_bytes, json_string};
use crate::limits;
use crate::order;
use crate::order::{sort, Ranked};
use crate::store::{Store, StoreModel};
use crate::table;
use crate::table::Table;
use crate::text;
use crate::text::{owned, text_less};
use crate::types::{Job, JobModel, JobStatus, JobStatusModel, Peer, PeerModel};

verus! {

/// A certificate speaks of exactly this job.
pub open spec fn speaks_of(c: CertificateModel, j: JobModel) -> bool {
    let i = c.invocation;
    i.id == j.id && i.from == j.from && i.body == j.body && i.argv == j.argv
}

pub fn matches_job(c: &Certificate, j: &Job) -> (yes: bool)
    ensures
        yes == speaks_of(c@, j@),
{
    let i = &c.invocation;
    i.id.same(&j.id) && i.from.same(&j.from) && i.body.same(&j.body) && i.argv.same(&j.argv)
}

pub open spec fn captured(output: CapturedOutputModel, fact: FactModel) -> bool {
    wire::output_ref(output.stdout) == fact.stdout && wire::output_ref(output.stderr) == fact.stderr
}

/// Whether some output is what a fact's digests describe.
pub fn output_matches(output: &CapturedOutput, fact: &Fact) -> (yes: bool)
    ensures
        yes == captured(output@, fact@),
{
    OutputRef::of(&output.stdout).same(&fact.stdout) && OutputRef::of(&output.stderr).same(
        &fact.stderr,
    )
}

pub open spec fn ticked(history: HistoryModel) -> HistoryModel {
    HistoryModel { clock: (history.clock + 1) as u64, ..history }
}

pub open spec fn exhausted() -> ErrorModel {
    ErrorModel::Protocol("history sequence exhausted"@)
}

/// Advance the local sequence. Every change gets a number of its own.
pub fn next_change(history: &mut History) -> (result: Result<u64>)
    ensures
        old(history)@.clock < u64::MAX ==> final(history)@ == ticked(old(history)@) && error::outcome(
            result,
        ) == Ok::<u64, ErrorModel>(final(history)@.clock),
        old(history)@.clock == u64::MAX ==> final(history)@ == old(history)@ && error::outcome(result)
            == Err::<u64, ErrorModel>(exhausted()),
{
    if history.clock == u64::MAX {
        return Err(protocol("history sequence exhausted"));
    }
    history.clock = history.clock + 1;
    Ok(history.clock)
}

impl Ranked for Peer {
    open spec fn before(a: PeerModel, b: PeerModel) -> bool {
        text::text_lt(a.name, b.name)
    }

    fn is_before(&self, other: &Self) -> (yes: bool) {
        text_less(&self.name.0, &other.name.0)
    }
}

pub open spec fn trust_item(p: PeerModel) -> Seq<char> {
    "["@ + json::json_string_text(p.name) + ","@ + json::json_list(json::byte_items(p.owner_pk)) + "]"@
}

pub open spec fn trust_items(peers: Seq<PeerModel>) -> Seq<Seq<char>> {
    Seq::new(peers.len(), |i: int| trust_item(peers[i]))
}

/// A digest of who is paired under which key, whatever order they were paired in.
pub open spec fn trust_digest(peers: Seq<PeerModel>) -> Seq<char> {
    crypto::digest_text(
        vstd::utf8::encode_utf8(json::json_list(trust_items(order::sorted(peers, order::rank_order::<Peer>())))),
    )
}

fn trust_of(peers: &Vec<Peer>) -> (digest: String)
    ensures
        digest@ == trust_digest(peers.deep_view()),
{
    let peers = sort(peers.dup());
    let ghost items = trust_items(peers.deep_view());
    let mut json = owned("[");
    let mut i: usize = 0;
    proof {
        reveal_strlit("");
        assert(items.take(0) =~= Seq::<Seq<char>>::empty());
        assert(json@ =~= "["@ + json::listed(items.take(0)));
    }
    while i < peers.len()
        invariant
            i <= peers.len(),
            items == trust_items(peers.deep_view()),
            json@ == "["@ + json::listed(items.take(i as int)),
        decreases peers.len() - i,
    {
        let ghost before = items.take(i as int);
        if i > 0 {
            json.append(",");
        }
        let mut item = owned("[");
        item.append(json_string(&peers[i].name.0).as_str());
        item.append(",");
        item.append(json_bytes(&peers[i].owner_pk).as_str());
        item.append("]");
        json.append(item.as_str());
        proof {
            reveal_strlit("");
            assert(peers.deep_view()[i as int] == peers@[i as int]@);
            assert(item@ == items[i as int]);
            json::lemma_listed_push(before, items[i as int]);
            assert(items.take(i + 1) =~= before.push(items[i as int]));
            assert(json@ =~= "["@ + json::listed(items.take(i + 1)));
        }
        i += 1;
    }
    assert(items.take(i as int) =~= items);
    json.append("]");
    hash(json.as_str().as_bytes())
}

/// Where a job ID last occurs.
pub open spec fn last_at(jobs: Seq<JobModel>, id: Seq<char>) -> Option<int>
    decreases jobs.len(),
{
    if jobs.len() == 0 {
        None
    } else if jobs.last().id == id {
        Some(jobs.len() - 1)
    } else {
        last_at(jobs.drop_last(), id)
    }
}

pub proof fn lemma_last_at(jobs: Seq<JobModel>, id: Seq<char>)
    ensures
        last_at(jobs, id) matches Some(i) ==> 0 <= i < jobs.len() && jobs[i].id == id,
    decreases jobs.len(),
{
    if jobs.len() > 0 && jobs.last().id != id {
        lemma_last_at(jobs.drop_last(), id);
    }
}

/// A table from job IDs to places agrees with `last_at`.
pub open spec fn indexes(rows: Seq<(Seq<char>, usize)>, jobs: Seq<JobModel>) -> bool {
    forall|id: Seq<char>|
        match (#[trigger] table::lookup(rows, id)) {
            Some(i) => last_at(jobs, id) == Some(i as int),
            None => last_at(jobs, id) is None,
        }
}

fn index_jobs(jobs: &Vec<Job>) -> (table: Table<usize>)
    ensures
        indexes(table.deep_view(), jobs.deep_view()),
{
    let ghost view = jobs.deep_view();
    let mut table: Table<usize> = Table::new();
    let mut i: usize = 0;
    proof {
        assert(view.take(0) =~= Seq::<JobModel>::empty());
    }
    while i < jobs.len()
        invariant
            i <= jobs.len(),
            view == jobs.deep_view(),
            indexes(table.deep_view(), view.take(i as int)),
        decreases jobs.len() - i,
    {
        table.observe();
        let ghost before = table.deep_view();
        let ghost id = view[i as int].id;
        table.put(jobs[i].id.dup(), i);
        proof {
            assert(view[i as int] == jobs@[i as int]@);
            let next = view.take(i + 1);
            assert(next.drop_last() =~= view.take(i as int));
            assert forall|other: Seq<char>|
                match (#[trigger] table::lookup(table.deep_view(), other)) {
                    Some(at) => last_at(next, other) == Some(at as int),
                    None => last_at(next, other) is None,
                } by {
                crate::table::lemma_stored_lookup(before, id, i, other);
                assert(table::lookup(before, other) == table::lookup(before, other));
            }
        }
        i += 1;
    }
    assert(view.take(i as int) =~= view);
    table
}

/// Every job's ID marked.
pub open spec fn marked(rows: Seq<(Seq<char>, ())>, jobs: Seq<JobModel>) -> Seq<(Seq<char>, ())>
    decreases jobs.len(),
{
    if jobs.len() == 0 {
        rows
    } else {
        table::stored(marked(rows, jobs.drop_last()), jobs.last().id, ())
    }
}

fn mark_all(rows: &mut Table<()>, jobs: &Vec<Job>)
    ensures
        final(rows).deep_view() == marked(old(rows).deep_view(), jobs.deep_view()),
{
    let ghost start = rows.deep_view();
    let ghost view = jobs.deep_view();
    let mut i: usize = 0;
    assert(view.take(0) =~= Seq::<JobModel>::empty());
    while i < jobs.len()
        invariant
            i <= jobs.len(),
            view == jobs.deep_view(),
            rows.deep_view() == marked(start, view.take(i as int)),
        decreases jobs.len() - i,
    {
        rows.put(jobs[i].id.dup(), ());
        proof {
            assert(view[i as int] == jobs@[i as int]@);
            assert(view.take(i + 1).drop_last() =~= view.take(i as int));
        }
        i += 1;
    }
    assert(view.take(i as int) =~= view);
}

/// An invocation with no facts yet.
pub open spec fn bare_entry(c: CertificateModel, change: u64) -> EntryModel {
    EntryModel {
        record: RecordModel { certificate: c, origin: None, runner: None },
        change,
        output: None,
    }
}

/// An entry kept under its own invocation, and valid on this machine.
pub open spec fn entry_valid(s: StoreModel, key: Seq<char>, entry: EntryModel) -> bool {
    key == wire::invocation_key(entry.record.certificate) && wire::validate_record_outcome(
        s,
        entry.record,
    ) is Ok
}

pub open spec fn held_valid(s: StoreModel) -> bool {
    forall|key: Seq<char>|
        (#[trigger] table::lookup(s.history.entries, key)) is Some ==> entry_valid(
            s,
            key,
            table::lookup(s.history.entries, key)->0,
        )
}

/// No other machine merely observed this invocation.
pub open spec fn first_hand(s: StoreModel, key: Seq<char>) -> bool {
    table::lookup(s.history.entries, key) matches Some(entry) ==> {
        let observer = entry.record.certificate.invocation.legacy_observer;
        observer is None || observer == Some(s.body_name)
    }
}

/// Local jobs are bound to invocations known at first hand.
pub open spec fn bound_here(s: StoreModel) -> bool {
    forall|id: Seq<char>|
        (#[trigger] table::lookup(s.job_certificates, id)) is Some ==> first_hand(
            s,
            table::lookup(s.job_certificates, id)->0,
        )
}

/// A seed whose signatures strict verification accepts.
pub open spec fn dependable(seed: Seq<u8>) -> bool {
    forall|message: Seq<u8>|
        crypto::sturdy(seed, #[trigger] crypto::ed25519_signature(seed, message))
}

/// A machine whose history is in order.
#[verifier::opaque]
pub open spec fn upheld(s: StoreModel) -> bool {
    dependable(s.owner_sk) && held_valid(s) && bound_here(s)
}

/// A job within bounds, which its runner does not still wait for.
pub open spec fn sane_job(s: StoreModel, job: JobModel) -> bool {
    &&& limits::result_outcome(job) is Ok
    &&& job.body == s.body_name ==> !(job.status is WaitingBody)
    &&& table::lookup(s.retry_links, job.id) matches Some(old) ==> limits::identifier_outcome(old) is Ok
        && old != job.id
}

/// Publishing touches history and its bindings, and nothing else.
pub open spec fn same_but_history(a: StoreModel, b: StoreModel) -> bool {
    b == StoreModel {
        history: b.history,
        job_certificates: b.job_certificates,
        legacy_jobs: b.legacy_jobs,
        ..a
    }
}

pub open spec fn sane_jobs(s: StoreModel) -> bool {
    forall|i: int| 0 <= i < s.jobs.len() ==> sane_job(s, #[trigger] s.jobs[i])
}

/// Validity rests on this machine's name and key and on those it is paired with.
proof fn lemma_same_verdict(a: StoreModel, b: StoreModel, record: RecordModel)
    requires
        same_but_history(a, b),
    ensures
        wire::validate_record_outcome(a, record) == wire::validate_record_outcome(b, record),
{
}

/// The job bound to an invocation, signing a certificate where it has none.
/// `known` says that the job was there before this change.
pub open spec fn bound(s: StoreModel, job: JobModel, known: bool) -> (
    StoreModel,
    Outcome<Seq<char>>,
) {
    match table::lookup(s.job_certificates, job.id) {
        Some(key) => (s, Ok(key)),
        None => {
            let legacy = table::holds(s.legacy_jobs, job.id) || job.from != s.body_name || known;
            let s1 = if legacy {
                StoreModel { legacy_jobs: table::stored(s.legacy_jobs, job.id, ()), ..s }
            } else {
                s
            };
            match wire::certificate_outcome(s1, job, legacy) {
                Err(e) => (s1, Err(e)),
                Ok(c) => if s.history.clock == u64::MAX {
                    (s1, Err(exhausted()))
                } else {
                    let key = wire::invocation_key(c);
                    let change = (s.history.clock + 1) as u64;
                    let history = HistoryModel {
                        entries: table::stored(s.history.entries, key, bare_entry(c, change)),
                        ..ticked(s.history)
                    };
                    (
                        StoreModel {
                            history,
                            job_certificates: table::stored(s.job_certificates, job.id, key),
                            ..s1
                        },
                        Ok(key),
                    )
                },
            }
        },
    }
}

/// What stands beside the entries does not bear on them.
proof fn lemma_apart_upheld(a: StoreModel, b: StoreModel)
    requires
        upheld(a),
        same_but_history(a, b),
        b.history.entries == a.history.entries,
        b.job_certificates == a.job_certificates,
    ensures
        upheld(b),
{
    reveal(upheld);
    assert forall|k: Seq<char>| (#[trigger] table::lookup(b.history.entries, k)) is Some implies entry_valid(
        b,
        k,
        table::lookup(b.history.entries, k)->0,
    ) by {
        assert(table::lookup(a.history.entries, k) is Some);
        lemma_same_verdict(a, b, table::lookup(b.history.entries, k)->0.record);
    }
    assert forall|id: Seq<char>| (#[trigger] table::lookup(b.job_certificates, id)) is Some implies first_hand(
        b,
        table::lookup(b.job_certificates, id)->0,
    ) by {
        assert(table::lookup(a.job_certificates, id) is Some);
    }
}

proof fn lemma_dependable(s: StoreModel, message: Seq<u8>)
    requires
        upheld(s),
    ensures
        crypto::sturdy(s.owner_sk, crypto::ed25519_signature(s.owner_sk, message)),
{
    reveal(upheld);
}

/// What history in order says of a local job's entry.
proof fn lemma_held(s: StoreModel, id: Seq<char>, key: Seq<char>)
    requires
        upheld(s),
        table::lookup(s.job_certificates, id) == Some(key),
    ensures
        table::lookup(s.history.entries, key) matches Some(entry) ==> entry_valid(s, key, entry)
            && first_hand(s, key),
{
    reveal(upheld);
}

/// A valid entry put in keeps history in order.
proof fn lemma_entry_upheld(s: StoreModel, next: StoreModel, key: Seq<char>, entry: EntryModel)
    requires
        upheld(s),
        table::ascending(s.history.entries),
        same_but_history(s, next),
        next.history.entries == table::stored(s.history.entries, key, entry),
        forall|id: Seq<char>|
            (#[trigger] table::lookup(next.job_certificates, id)) == table::lookup(
                s.job_certificates,
                id,
            ) || table::lookup(next.job_certificates, id) == Some(key),
        entry_valid(s, key, entry),
        ({
            let observer = entry.record.certificate.invocation.legacy_observer;
            observer is None || observer == Some(s.body_name)
        }),
    ensures
        upheld(next),
{
    reveal(upheld);
    assert forall|k: Seq<char>| (#[trigger] table::lookup(next.history.entries, k)) is Some implies entry_valid(
        next,
        k,
        table::lookup(next.history.entries, k)->0,
    ) by {
        table::lemma_stored_lookup(s.history.entries, key, entry, k);
        lemma_same_verdict(s, next, table::lookup(next.history.entries, k)->0.record);
        if k != key {
            assert(table::lookup(s.history.entries, k) is Some);
        }
    }
    assert forall|id: Seq<char>|
        (#[trigger] table::lookup(next.job_certificates, id)) is Some implies first_hand(
        next,
        table::lookup(next.job_certificates, id)->0,
    ) by {
        let k = table::lookup(next.job_certificates, id)->0;
        table::lemma_stored_lookup(s.history.entries, key, entry, k);
        if k != key {
            assert(table::lookup(s.job_certificates, id) is Some);
        }
    }
}

fn bind(store: &mut Store, job: &Job, known: bool) -> (result: Result<String>)
    ensures
        (final(store)@, error::outcome(result)) == bound(old(store)@, job@, known),
        upheld(old(store)@) && sane_job(old(store)@, job@) && (job@.from == old(store)@.body_name
            || job@.body == old(store)@.body_name) ==> upheld(final(store)@),
        result matches Ok(key) ==> table::lookup(final(store)@.job_certificates, job@.id) == Some(key@),
{
    let ghost start = store@;
    if let Some(key) = store.job_certificates.get(&job.id) {
        return Ok(key.dup());
    }
    let legacy: bool = store.legacy_jobs.has(&job.id) || !job.from.0.same(&store.body_name)
        || known;
    store.history.entries.observe();
    store.job_certificates.observe();
    if legacy {
        store.legacy_jobs.put(job.id.dup(), ());
    }
    let ghost fit = upheld(start) && sane_job(start, job@) && (job@.from == start.body_name || job@.body
        == start.body_name);
    proof {
        if fit {
            lemma_apart_upheld(start, store@);
        }
    }
    let c = match certificate(store, job, legacy) {
        Ok(c) => c,
        Err(e) => return Err(e),
    };
    let key = key_of(&c);
    proof {
        if fit {
            lemma_dependable(start, wire::invocation_message(c@.invocation));
            assert(wire::attestable(store@, job@, legacy));
            assert(wire::validate_invocation_outcome(start, c@)
                == wire::validate_invocation_outcome(store@, c@));
        }
    }
    let change: u64 = match next_change(&mut store.history) {
        Ok(change) => change,
        Err(e) => return Err(e),
    };
    let ghost certificate = c@;
    let entry = Entry {
        record: Record { certificate: c, origin: None, runner: None },
        change,
        output: None,
    };
    store.history.entries.put(key.dup(), entry);
    store.job_certificates.put(job.id.dup(), key.dup());
    proof {
        table::lemma_stored_lookup(start.job_certificates, job@.id, key@, job@.id);
        table::lemma_stored_lookup(
            start.history.entries,
            key@,
            bare_entry(certificate, change),
            key@,
        );
        if fit {
            let added = bare_entry(certificate, change);
            assert forall|id: Seq<char>|
                (#[trigger] table::lookup(store@.job_certificates, id)) == table::lookup(
                    start.job_certificates,
                    id,
                ) || table::lookup(store@.job_certificates, id) == Some(key@) by {
                table::lemma_stored_lookup(start.job_certificates, job@.id, key@, id);
            }
            lemma_entry_upheld(start, store@, key@, added);
        }
    }
    Ok(key)
}

/// What this machine has to say of a job: in which role, after which fact.
pub open spec fn voice(s: StoreModel, record: RecordModel, job: JobModel) -> Option<
    (Role, Option<SignedFactModel>),
> {
    if record.certificate.invocation.legacy_observer is Some {
        Some((Role::LegacyObserver, record.origin))
    } else if job.body == s.body_name && !(job.status is Queued) && !(
    job.status is WaitingCapacity) {
        Some((Role::Runner, record.runner))
    } else if job.from == s.body_name && wire::origin_status(job.status) {
        Some((Role::Origin, record.origin))
    } else {
        None
    }
}

/// The digests that a fact carries.
pub open spec fn digests(
    s: StoreModel,
    job: JobModel,
    role: Role,
    previous: Option<SignedFactModel>,
) -> Outcome<(OutputRefModel, OutputRefModel)> {
    if role == Role::Origin {
        Ok((wire::output_ref(Seq::empty()), wire::output_ref(Seq::empty())))
    } else if table::holds(s.output_pruned, job.id) {
        match previous {
            Some(f) => Ok((f.fact.stdout, f.fact.stderr)),
            None => Err(ErrorModel::Protocol("pruned job is missing its output digests"@)),
        }
    } else {
        Ok((wire::output_ref(job.stdout), wire::output_ref(job.stderr)))
    }
}

/// Whether a fact would say anything new. A terminal fact stays as it is.
pub open spec fn newsworthy(
    previous: Option<SignedFactModel>,
    status: JobStatusModel,
    stdout: OutputRefModel,
    stderr: OutputRefModel,
) -> bool {
    match previous {
        Some(p) => !job::terminal(p.fact.status) && !(p.fact.status == status && p.fact.stdout == stdout
            && p.fact.stderr == stderr),
        None => true,
    }
}

/// The entry with a new fact, keeping no payload that the job already holds.
pub open spec fn with_fact(
    s: StoreModel,
    job: JobModel,
    entry: EntryModel,
    signed: SignedFactModel,
    change: u64,
) -> EntryModel {
    let record = record_with(entry.record, signed);
    let fact = record.selected()->0.fact;
    let local = !table::holds(s.output_pruned, job.id) && wire::output_ref(job.stdout) == fact.stdout
        && wire::output_ref(job.stderr) == fact.stderr;
    let stale = entry.output is Some && !captured(entry.output->0, fact);
    EntryModel {
        record,
        change,
        output: if local || stale {
            None
        } else {
            entry.output
        },
    }
}

/// The store after this machine has said of a job what it has to say.
pub open spec fn spoken(s: StoreModel, job: JobModel, key: Seq<char>) -> (
    StoreModel,
    Outcome<()>,
) {
    match table::lookup(s.history.entries, key) {
        None => (s, Err(ErrorModel::Protocol("admitted job lost its certificate"@))),
        Some(entry) => if !speaks_of(entry.record.certificate, job) {
            (s, Err(ErrorModel::Protocol("admitted job invocation changed"@)))
        } else {
            match voice(s, entry.record, job) {
                None => (s, Ok(())),
                Some((role, previous)) => match digests(s, job, role, previous) {
                    Err(e) => (s, Err(e)),
                    Ok((stdout, stderr)) => if !newsworthy(previous, job.status, stdout, stderr) {
                        (s, Ok(()))
                    } else if previous is Some && previous->0.fact.revision == u64::MAX {
                        (s, Err(ErrorModel::Protocol("fact revision exhausted"@)))
                    } else {
                        let revision = match previous {
                            Some(p) => (p.fact.revision + 1) as u64,
                            None => 1u64,
                        };
                        let fact = FactModel {
                            invocation: key,
                            role,
                            revision,
                            status: job.status,
                            stdout,
                            stderr,
                        };
                        match wire::signed_fact_outcome(s, fact) {
                            Err(e) => (s, Err(e)),
                            Ok(signed) => if s.history.clock == u64::MAX {
                                (s, Err(exhausted()))
                            } else {
                                let change = (s.history.clock + 1) as u64;
                                let next = with_fact(s, job, entry, signed, change);
                                (
                                    StoreModel {
                                        history: HistoryModel {
                                            entries: table::stored(s.history.entries, key, next),
                                            ..ticked(s.history)
                                        },
                                        ..s
                                    },
                                    Ok(()),
                                )
                            },
                        }
                    },
                },
            }
        },
    }
}

fn choose_voice(store: &Store, record: &Record, job: &Job) -> (choice: Option<
    (Role, Option<SignedFact>),
>)
    ensures
        (match choice {
            Some((role, previous)) => voice(store@, record@, job@) == Some(
                (role, previous.deep_view()),
            ),
            None => voice(store@, record@, job@) is None,
        }),
{
    if record.certificate.invocation.legacy_observer.is_some() {
        return Some((Role::LegacyObserver, record.origin.dup()));
    }
    let held: bool = match &job.status {
        JobStatus::Queued => true,
        JobStatus::WaitingCapacity => true,
        _ => false,
    };
    if job.body.0.same(&store.body_name) && !held {
        return Some((Role::Runner, record.runner.dup()));
    }
    if job.from.0.same(&store.body_name) {
        match &job.status {
            JobStatus::Queued => Some((Role::Origin, record.origin.dup())),
            JobStatus::WaitingBody => Some((Role::Origin, record.origin.dup())),
            JobStatus::WaitingCapacity => Some((Role::Origin, record.origin.dup())),
            JobStatus::Failed { .. } => Some((Role::Origin, record.origin.dup())),
            _ => None,
        }
    } else {
        None
    }
}

pub open spec fn well_digested(fact: Option<SignedFactModel>) -> bool {
    fact matches Some(signed) ==> wire::digest_ok(signed.fact.stdout) && wire::digest_ok(
        signed.fact.stderr,
    )
}

/// What a record says once a fact is signed into it.
pub open spec fn record_with(record: RecordModel, signed: SignedFactModel) -> RecordModel {
    if signed.fact.role == Role::Runner {
        RecordModel { runner: Some(signed), ..record }
    } else {
        RecordModel { origin: Some(signed), ..record }
    }
}

/// A fact that this machine signs in the role that is its own makes a valid
/// record valid again.
proof fn lemma_fact_valid(
    s: StoreModel,
    record: RecordModel,
    job: JobModel,
    previous: Option<SignedFactModel>,
    signed: SignedFactModel,
)
    requires
        wire::validate_record_outcome(s, record) is Ok,
        ({
            let observer = record.certificate.invocation.legacy_observer;
            observer is None || observer == Some(s.body_name)
        }),
        speaks_of(record.certificate, job),
        sane_job(s, job),
        voice(s, record, job) == Some((signed.fact.role, previous)),
        s.owner_sk.len() == 32,
        signed.fact.invocation == wire::invocation_key(record.certificate),
        signed.fact.revision > 0,
        signed.fact.status == job.status,
        wire::digest_ok(signed.fact.stdout),
        wire::digest_ok(signed.fact.stderr),
        signed.fact.role == Role::Origin ==> signed.fact.stdout.bytes == 0
            && signed.fact.stderr.bytes == 0,
        wire::verify_outcome(
            wire::fact_message(signed.fact),
            signed.signature,
            crypto::ed25519_public(s.owner_sk),
        ) is Ok,
    ensures
        wire::validate_record_outcome(s, record_with(record, signed)) is Ok,
{
    assert(wire::validate_fact_outcome(s, record.certificate, signed, signed.fact.role) is Ok);
}

fn choose_digests(store: &Store, job: &Job, role: Role, previous: &Option<SignedFact>) -> (result:
    Result<(OutputRef, OutputRef)>)
    ensures
        error::outcome(result) == digests(store@, job@, role, previous.deep_view()),
        result matches Ok(pair) ==> limits::result_outcome(job@) is Ok && well_digested(
            previous.deep_view(),
        ) ==> wire::digest_ok(pair.0@) && wire::digest_ok(pair.1@),
{
    if role == Role::Origin {
        let none: Vec<u8> = Vec::new();
        return Ok((OutputRef::of(&none), OutputRef::of(&none)));
    }
    if store.output_pruned.has(&job.id) {
        return match previous {
            Some(f) => Ok((f.fact.stdout.dup(), f.fact.stderr.dup())),
            None => Err(protocol("pruned job is missing its output digests")),
        };
    }
    Ok((OutputRef::of(&job.stdout), OutputRef::of(&job.stderr)))
}

fn entry_with_fact(store: &Store, job: &Job, entry: Entry, signed: SignedFact, change: u64) -> (
next: Entry)
    ensures
        next@ == with_fact(store@, job@, entry@, signed@, change),
{
    let mut entry = entry;
    if signed.fact.role == Role::Runner {
        entry.record.runner = Some(signed);
    } else {
        entry.record.origin = Some(signed);
    }
    entry.change = change;
    let drop_output: bool = match entry.record.selected() {
        Some(selected) => {
            let local: bool = !store.output_pruned.has(&job.id) && OutputRef::of(&job.stdout).same(
                &selected.fact.stdout,
            ) && OutputRef::of(&job.stderr).same(&selected.fact.stderr);
            let stale: bool = match &entry.output {
                Some(output) => !output_matches(output, &selected.fact),
                None => false,
            };
            local || stale
        },
        None => false,
    };
    if drop_output {
        entry.output = None;
    }
    entry
}

fn speak(store: &mut Store, job: &Job, key: &String) -> (result: Result<()>)
    ensures
        (final(store)@, error::outcome(result)) == spoken(old(store)@, job@, key@),
        upheld(old(store)@) && sane_job(old(store)@, job@) && table::lookup(
            old(store)@.job_certificates,
            job@.id,
        ) == Some(key@) ==> upheld(final(store)@),
{
    let ghost start = store@;
    let ghost fit = upheld(start) && sane_job(start, job@) && table::lookup(
        start.job_certificates,
        job@.id,
    ) == Some(key@);
    store.history.entries.observe();
    let entry = match store.history.entries.get(key) {
        Some(entry) => entry.dup(),
        None => return Err(protocol("admitted job lost its certificate")),
    };
    if !matches_job(&entry.record.certificate, job) {
        return Err(protocol("admitted job invocation changed"));
    }
    let ghost known = entry@;
    proof {
        if fit {
            lemma_held(start, job@.id, key@);
        }
    }
    let (role, previous) = match choose_voice(store, &entry.record, job) {
        Some(choice) => choice,
        None => return Ok(()),
    };
    let (stdout, stderr) = match choose_digests(store, job, role, &previous) {
        Ok(pair) => pair,
        Err(e) => return Err(e),
    };
    let mut revision: u64 = 1;
    if let Some(p) = &previous {
        if p.fact.status.same(&job.status) && p.fact.stdout.same(&stdout) && p.fact.stderr.same(
            &stderr,
        ) {
            return Ok(());
        }
        if is_terminal(&p.fact.status) {
            return Ok(());
        }
        if p.fact.revision == u64::MAX {
            return Err(protocol("fact revision exhausted"));
        }
        revision = p.fact.revision + 1;
    }
    let fact = Fact {
        invocation: key.dup(),
        role,
        revision,
        status: job.status.dup(),
        stdout,
        stderr,
    };
    let ghost said = fact@;
    let signed = match sign_fact(store, fact) {
        Ok(signed) => signed,
        Err(e) => return Err(e),
    };
    proof {
        if fit {
            lemma_dependable(start, wire::fact_message(said));
            lemma_fact_valid(start, known.record, job@, previous.deep_view(), signed@);
        }
    }
    let change: u64 = match next_change(&mut store.history) {
        Ok(change) => change,
        Err(e) => return Err(e),
    };
    let next = entry_with_fact(store, job, entry, signed, change);
    let ghost added = next@;
    store.history.entries.put(key.dup(), next);
    proof {
        if fit {
            lemma_entry_upheld(start, store@, key@, added);
        }
    }
    Ok(())
}

/// One changed job: bound to its invocation, then spoken of.
#[verifier::opaque]
pub open spec fn published_job(s: StoreModel, job: JobModel, known: bool) -> (
    StoreModel,
    Outcome<()>,
) {
    if job.from != s.body_name && job.body != s.body_name {
        (s, Ok(()))
    } else {
        let (bound_store, key) = bound(s, job, known);
        match key {
            Err(e) => (bound_store, Err(e)),
            Ok(k) => spoken(bound_store, job, k),
        }
    }
}

fn publish_job(store: &mut Store, job: &Job, known: bool) -> (result: Result<()>)
    ensures
        (final(store)@, error::outcome(result)) == published_job(old(store)@, job@, known),
        upheld(old(store)@) && sane_job(old(store)@, job@) ==> upheld(final(store)@),
{
    reveal(published_job);
    if !job.from.0.same(&store.body_name) && !job.body.0.same(&store.body_name) {
        return Ok(());
    }
    match bind(store, job, known) {
        Ok(key) => speak(store, job, &key),
        Err(e) => Err(e),
    }
}

/// Jobs as they were before this change.
pub open spec fn earlier_jobs(previous: Option<StoreModel>) -> Seq<JobModel> {
    match previous {
        Some(s) => s.jobs,
        None => Seq::empty(),
    }
}

/// Whether a job is new or differs from what it was.
pub open spec fn job_changed(earlier: Seq<JobModel>, job: JobModel) -> bool {
    match last_at(earlier, job.id) {
        Some(i) => earlier[i] != job,
        None => true,
    }
}

/// Publish the changed jobs from `i` on, in their order.
pub open spec fn published_from(
    s: StoreModel,
    jobs: Seq<JobModel>,
    i: int,
    legacy: bool,
    earlier: Seq<JobModel>,
) -> (StoreModel, Outcome<()>)
    decreases jobs.len() - i,
{
    if i >= jobs.len() {
        (s, Ok(()))
    } else if !legacy && !job_changed(earlier, jobs[i]) {
        published_from(s, jobs, i + 1, legacy, earlier)
    } else {
        let (next, step) = published_job(s, jobs[i], last_at(earlier, jobs[i].id) is Some);
        match step {
            Err(e) => (next, Err(e)),
            Ok(_) => published_from(next, jobs, i + 1, legacy, earlier),
        }
    }
}

/// A store ready to publish: old jobs labelled, an epoch chosen, the scan of
/// every neighbour started over when who is trusted has changed.
pub open spec fn readied(s: StoreModel, fresh_epoch: Seq<char>) -> StoreModel {
    let legacy_jobs = if s.history.initialized {
        s.legacy_jobs
    } else {
        marked(s.legacy_jobs, s.jobs)
    };
    let epoch = if s.history.epoch.len() == 0 {
        fresh_epoch
    } else {
        s.history.epoch
    };
    let trust = trust_digest(s.peers);
    let peers = if trust == s.history.trust {
        s.history.peers
    } else {
        Seq::empty()
    };
    StoreModel {
        legacy_jobs,
        history: HistoryModel { epoch, trust, peers, ..s.history },
        ..s
    }
}

/// The store with everything published that this machine owns.
pub open spec fn refreshed(
    s: StoreModel,
    previous: Option<StoreModel>,
    fresh_epoch: Seq<char>,
) -> (StoreModel, Outcome<()>) {
    let ready = readied(s, fresh_epoch);
    let (next, step) = published_from(
        ready,
        s.jobs,
        0,
        !s.history.initialized,
        earlier_jobs(previous),
    );
    match step {
        Err(e) => (next, Err(e)),
        Ok(_) => (
            StoreModel { history: HistoryModel { initialized: true, ..next.history }, ..next },
            Ok(()),
        ),
    }
}

pub proof fn lemma_published_job_frame(s: StoreModel, job: JobModel, known: bool)
    ensures
        same_but_history(s, published_job(s, job, known).0),
{
    reveal(published_job);
}

pub proof fn lemma_published_from_frame(
    s: StoreModel,
    jobs: Seq<JobModel>,
    i: int,
    legacy: bool,
    earlier: Seq<JobModel>,
)
    ensures
        same_but_history(s, published_from(s, jobs, i, legacy, earlier).0),
    decreases jobs.len() - i,
{
    if i < jobs.len() {
        if !legacy && !job_changed(earlier, jobs[i]) {
            lemma_published_from_frame(s, jobs, i + 1, legacy, earlier);
        } else {
            let known = last_at(earlier, jobs[i].id) is Some;
            lemma_published_job_frame(s, jobs[i], known);
            let (next, step) = published_job(s, jobs[i], known);
            if step is Ok {
                lemma_published_from_frame(next, jobs, i + 1, legacy, earlier);
            }
        }
    }
}

fn job_is_news(earlier: &Vec<Job>, index: &Table<usize>, job: &Job) -> (news: (bool, bool))
    requires
        indexes(index.deep_view(), earlier.deep_view()),
    ensures
        news.0 == job_changed(earlier.deep_view(), job@),
        news.1 == (last_at(earlier.deep_view(), job@.id) is Some),
{
    let ghost view = earlier.deep_view();
    proof {
        lemma_last_at(view, job@.id);
    }
    match index.get(&job.id) {
        Some(at) => {
            assert(table::lookup(index.deep_view(), job@.id) == Some(*at));
            assert(view[*at as int] == earlier@[*at as int]@);
            (!earlier[*at].same(job), true)
        },
        None => {
            assert(table::lookup(index.deep_view(), job@.id) is None);
            (true, false)
        },
    }
}

/// Called inside the same durable update as admission or execution transitions.
/// It publishes only locally owned facts for jobs already admitted on this box.
/// `fresh_epoch` names the sequence where it has no name yet. A history in order
/// stays so: whatever is published is valid, for this machine and for everyone
/// who knows the same keys.
pub fn refresh_owned(store: &mut Store, previous: Option<&Store>, fresh_epoch: String) -> (result:
    Result<()>)
    ensures
        (final(store)@, error::outcome(result)) == refreshed(
            old(store)@,
            match previous {
                Some(p) => Some(p@),
                None => None,
            },
            fresh_epoch@,
        ),
        upheld(old(store)@) && sane_jobs(old(store)@) ==> upheld(final(store)@),
{
    let ghost start = store@;
    let ghost fit = upheld(start) && sane_jobs(start);
    let none: Vec<Job> = Vec::new();
    let earlier: &Vec<Job> = match previous {
        Some(p) => &p.jobs,
        None => &none,
    };
    let ghost before = earlier_jobs(
        match previous {
            Some(p) => Some(p@),
            None => None,
        },
    );
    assert(earlier.deep_view() =~= before);
    let index = index_jobs(earlier);
    let legacy: bool = !store.history.initialized;
    if legacy {
        mark_all(&mut store.legacy_jobs, &store.jobs);
    }
    if store.history.epoch.as_str().is_empty() {
        store.history.epoch = fresh_epoch;
    }
    let trust = trust_of(&store.peers);
    if !trust.same(&store.history.trust) {
        // A formerly unknown author may now be explicitly paired. Rescan every
        // neighbor instead of silently losing facts skipped on an earlier pass.
        store.history.peers.clear();
        store.history.trust = trust;
    }
    let ghost ready = store@;
    assert(ready == readied(start, fresh_epoch@));
    let ghost jobs = start.jobs;
    proof {
        if fit {
            lemma_apart_upheld(start, ready);
        }
    }
    let mut i: usize = 0;
    while i < store.jobs.len()
        invariant
            i <= store.jobs.len(),
            store@.jobs == jobs,
            same_but_history(start, store@),
            fit == (upheld(start) && sane_jobs(start)),
            fit ==> upheld(store@),
            start == old(store)@,
            jobs == start.jobs,
            legacy == !start.history.initialized,
            ready == readied(start, fresh_epoch@),
            before == earlier_jobs(
                match previous {
                    Some(p) => Some(p@),
                    None => None,
                },
            ),
            before == earlier.deep_view(),
            indexes(index.deep_view(), before),
            published_from(ready, jobs, 0, legacy, before) == published_from(
                store@,
                jobs,
                i as int,
                legacy,
                before,
            ),
        decreases store.jobs.len() - i,
    {
        assert(jobs[i as int] == store.jobs@[i as int]@);
        let (changed, known) = job_is_news(earlier, &index, &store.jobs[i]);
        if legacy || changed {
            let job = store.jobs[i].dup();
            let ghost here = store@;
            proof {
                lemma_published_job_frame(here, jobs[i as int], known);
                assert(fit ==> sane_job(start, jobs[i as int]));
                assert(job@ == jobs[i as int]);
            }
            match publish_job(store, &job, known) {
                Ok(_) => {},
                Err(e) => return Err(e),
            }
        }
        i += 1;
    }
    let ghost published = store@;
    store.history.initialized = true;
    proof {
        if fit {
            lemma_apart_upheld(published, store@);
        }
    }
    Ok(())
}

} // verus!
