//! Bounded retained payloads, with permanent admission and delivery receipts.
//! Removing output cannot make an old invocation executable again.

use vstd::prelude::*;

use crate::data::Data;
use crate::error;
use crate::error::{capacity, protocol, ErrorModel, Outcome, Result};
use crate::history::{Entry, EntryModel, HistoryModel};
use crate::job;
use crate::job::{find_job, is_terminal};
use crate::json;
use crate::json::json_string;
use crate::order;
use crate::order::{sort, Ranked};
use crate::search;
use crate::store::{Store, StoreModel};
use crate::table;
use crate::table::Table;
use crate::text;
use crate::text::{cat4, decimal_text, text_bytes};
use crate::types::{Job, JobModel};

verus! {

/// Encoded state stays within this many bytes.
pub const STATE_BYTES: usize = 128 * 1024 * 1024;

/// Retained output stays within this many bytes.
pub const OUTPUT_BYTES: usize = 16 * 1024 * 1024;

/// Room kept for the outcome of each job that is not finished.
pub const COMPLETION_RESERVE: usize = 2 * 1024 * 1024;

pub const MAX_JOBS: usize = 10_000;

pub const MAX_HISTORY: usize = 30_000;

pub const MAX_REQUEST_RECEIPTS: usize = 10_000;

pub const MAX_REQUESTS: usize = 1024;

pub const MAX_OUTBOUND: usize = 1024;

pub const MAX_PEERS: usize = 64;

pub const MAX_GRANTS: usize = 256;

/// A count as this machine can hold it.
pub open spec fn clamp(n: int) -> usize {
    if n > usize::MAX {
        usize::MAX
    } else {
        n as usize
    }
}

fn add_up(a: usize, b: usize) -> (sum: usize)
    ensures
        sum == clamp(a + b),
{
    if b > usize::MAX - a {
        usize::MAX
    } else {
        a + b
    }
}

pub open spec fn job_output(j: JobModel) -> nat {
    j.stdout.len() + j.stderr.len()
}

pub open spec fn entry_output(e: EntryModel) -> nat {
    match e.output {
        Some(o) => o.stdout.len() + o.stderr.len(),
        None => 0,
    }
}

pub open spec fn job_measure() -> spec_fn(JobModel) -> nat {
    |j: JobModel| job_output(j)
}

pub open spec fn row_measure() -> spec_fn((Seq<char>, EntryModel)) -> nat {
    |row: (Seq<char>, EntryModel)| entry_output(row.1)
}

/// Bytes of output in the jobs and in the replicas.
pub open spec fn retained(s: StoreModel) -> nat {
    search::total(s.jobs, job_measure()) + search::total(s.history.entries, row_measure())
}

fn job_size(job: &Job) -> (n: usize)
    ensures
        n == clamp(job_output(job@) as int),
{
    add_up(job.stdout.len(), job.stderr.len())
}

fn entry_size(entry: &Entry) -> (n: usize)
    ensures
        n == clamp(entry_output(entry@) as int),
{
    match &entry.output {
        Some(o) => add_up(o.stdout.len(), o.stderr.len()),
        None => 0,
    }
}

pub fn output_bytes(store: &Store) -> (bytes: usize)
    ensures
        bytes == clamp(retained(store@) as int),
{
    let ghost jobs = store@.jobs;
    let ghost entries = store@.history.entries;
    let mut bytes: usize = 0;
    let mut i: usize = 0;
    assert(jobs.take(0) =~= Seq::<JobModel>::empty());
    while i < store.jobs.len()
        invariant
            i <= store.jobs.len(),
            jobs == store@.jobs,
            bytes == clamp(search::total(jobs.take(i as int), job_measure()) as int),
        decreases store.jobs.len() - i,
    {
        assert(jobs[i as int] == store.jobs@[i as int]@);
        proof {
            search::lemma_total_step(jobs, job_measure(), i as int);
        }
        bytes = add_up(bytes, job_size(&store.jobs[i]));
        i += 1;
    }
    assert(jobs.take(i as int) =~= jobs);
    let ghost base = search::total(jobs, job_measure());
    let mut k: usize = 0;
    assert(entries.take(0) =~= Seq::<(Seq<char>, EntryModel)>::empty());
    while k < store.history.entries.len()
        invariant
            k <= entries.len(),
            entries == store@.history.entries,
            bytes == clamp((base + search::total(entries.take(k as int), row_measure())) as int),
        decreases entries.len() - k,
    {
        proof {
            search::lemma_total_step(entries, row_measure(), k as int);
        }
        bytes = add_up(bytes, entry_size(store.history.entries.value_at(k)));
        k += 1;
    }
    assert(entries.take(k as int) =~= entries);
    bytes
}

/// Output that may be removed.
#[derive(Debug, Clone, PartialEq, Eq)]
pub enum Payload {
    /// A finished job of this machine, by its ID.
    Local(String),
    /// A copy of another machine's output, by its invocation.
    Replica(String),
}

/// What a `Payload` says.
#[verifier::ext_equal]
pub enum PayloadModel {
    Local(Seq<char>),
    Replica(Seq<char>),
}

impl View for Payload {
    type V = PayloadModel;

    open spec fn view(&self) -> PayloadModel {
        match self {
            Payload::Local(x0) => PayloadModel::Local(x0.deep_view()),
            Payload::Replica(x0) => PayloadModel::Replica(x0.deep_view()),
        }
    }
}

impl DeepView for Payload {
    type V = PayloadModel;

    open spec fn deep_view(&self) -> PayloadModel {
        self@
    }
}

impl Data for Payload {
    fn dup(&self) -> (copy: Self) {
        match self {
            Payload::Local(x0) => Payload::Local(x0.dup()),
            Payload::Replica(x0) => Payload::Replica(x0.dup()),
        }
    }

    fn same(&self, other: &Self) -> (equal: bool) {
        match (self, other) {
            (Payload::Local(x0a), Payload::Local(x0b)) => x0a.same(x0b),
            (Payload::Replica(x0a), Payload::Replica(x0b)) => x0a.same(x0b),
            _ => false,
        }
    }
}

/// Removable output with its age and size.
#[derive(Debug, Clone, PartialEq, Eq)]
pub struct Candidate {
    pub age: u64,
    pub payload: Payload,
    pub bytes: usize,
}

/// What a `Candidate` says.
#[verifier::ext_equal]
pub struct CandidateModel {
    pub age: u64,
    pub payload: PayloadModel,
    pub bytes: usize,
}

impl View for Candidate {
    type V = CandidateModel;

    open spec fn view(&self) -> CandidateModel {
        CandidateModel {
            age: self.age,
            payload: self.payload.deep_view(),
            bytes: self.bytes,
        }
    }
}

impl DeepView for Candidate {
    type V = CandidateModel;

    open spec fn deep_view(&self) -> CandidateModel {
        self@
    }
}

impl Data for Candidate {
    fn dup(&self) -> (copy: Self) {
        Candidate {
            age: self.age,
            payload: self.payload.dup(),
            bytes: self.bytes,
        }
    }

    fn same(&self, other: &Self) -> (equal: bool) {
        self.age == other.age
            && self.payload.same(&other.payload)
            && self.bytes == other.bytes
    }
}

impl Ranked for Candidate {
    open spec fn before(a: CandidateModel, b: CandidateModel) -> bool {
        a.age < b.age
    }

    fn is_before(&self, other: &Self) -> (yes: bool) {
        self.age < other.age
    }
}

/// The output of a finished, published job.
pub open spec fn job_candidate(s: StoreModel, job: JobModel) -> Option<(Seq<char>, CandidateModel)> {
    if job_output(job) == 0 || !job::terminal(job.status) {
        None
    } else {
        match table::lookup(s.job_certificates, job.id) {
            None => None,
            Some(key) => match table::lookup(s.history.entries, key) {
                None => None,
                Some(entry) => if entry.record.selected() is Some {
                    Some(
                        (
                            key,
                            CandidateModel {
                                age: entry.change,
                                payload: PayloadModel::Local(job.id),
                                bytes: clamp(job_output(job) as int),
                            },
                        ),
                    )
                } else {
                    None
                },
            },
        }
    }
}

/// Candidates of the first `n` jobs.
pub open spec fn job_candidates(s: StoreModel, n: int) -> Seq<(Seq<char>, CandidateModel)>
    decreases n,
{
    if n <= 0 {
        Seq::empty()
    } else {
        let rows = job_candidates(s, n - 1);
        match job_candidate(s, s.jobs[n - 1]) {
            Some((key, candidate)) => table::stored(rows, key, candidate),
            None => rows,
        }
    }
}

pub open spec fn prunable(entry: EntryModel) -> bool {
    entry_output(entry) > 0 && entry.record.selected() is Some && job::terminal(
        entry.record.selected()->0.fact.status,
    )
}

/// Candidates of all jobs and of the first `n` entries. One invocation counts
/// once, even when both its admitted payload and a replica are kept.
pub open spec fn entry_candidates(s: StoreModel, n: int) -> Seq<(Seq<char>, CandidateModel)>
    decreases n,
{
    if n <= 0 {
        job_candidates(s, s.jobs.len() as int)
    } else {
        let rows = entry_candidates(s, n - 1);
        let (key, entry) = s.history.entries[n - 1];
        if prunable(entry) {
            match table::lookup(rows, key) {
                Some(c) => table::stored(
                    rows,
                    key,
                    CandidateModel { bytes: clamp(c.bytes + entry_output(entry)), ..c },
                ),
                None => table::stored(
                    rows,
                    key,
                    CandidateModel {
                        age: entry.change,
                        payload: PayloadModel::Replica(key),
                        bytes: clamp(entry_output(entry) as int),
                    },
                ),
            }
        } else {
            rows
        }
    }
}

pub open spec fn row_values(rows: Seq<(Seq<char>, CandidateModel)>) -> Seq<CandidateModel> {
    Seq::new(rows.len(), |i: int| rows[i].1)
}

/// What may be removed, the oldest first.
pub open spec fn removable(s: StoreModel) -> Seq<CandidateModel> {
    order::sorted(
        row_values(entry_candidates(s, s.history.entries.len() as int)),
        order::rank_order::<Candidate>(),
    )
}

fn candidate_of_job(store: &Store, job: &Job) -> (found: Option<(String, Candidate)>)
    ensures
        (match found {
            Some((key, candidate)) => job_candidate(store@, job@) == Some((key@, candidate@)),
            None => job_candidate(store@, job@) is None,
        }),
{
    let bytes: usize = job_size(job);
    if bytes == 0 || !is_terminal(&job.status) {
        return None;
    }
    let key = match store.job_certificates.get(&job.id) {
        Some(key) => key,
        None => return None,
    };
    match store.history.entries.get(key) {
        Some(entry) => if entry.record.selected().is_some() {
            Some(
                (
                    key.dup(),
                    Candidate { age: entry.change, payload: Payload::Local(job.id.dup()), bytes },
                ),
            )
        } else {
            None
        },
        None => None,
    }
}

fn is_prunable(entry: &Entry) -> (yes: bool)
    ensures
        yes == prunable(entry@),
{
    if entry_size(entry) == 0 {
        return false;
    }
    match entry.record.selected() {
        Some(fact) => is_terminal(&fact.fact.status),
        None => false,
    }
}

pub fn candidates(store: &Store) -> (list: Vec<Candidate>)
    ensures
        list.deep_view() == removable(store@),
{
    let ghost entries = store@.history.entries;
    let mut rows: Table<Candidate> = Table::new();
    let mut i: usize = 0;
    while i < store.jobs.len()
        invariant
            i <= store.jobs.len(),
            rows.deep_view() == job_candidates(store@, i as int),
        decreases store.jobs.len() - i,
    {
        assert(store@.jobs[i as int] == store.jobs@[i as int]@);
        if let Some((key, candidate)) = candidate_of_job(store, &store.jobs[i]) {
            rows.put(key, candidate);
        }
        i += 1;
    }
    let mut n: usize = 0;
    while n < store.history.entries.len()
        invariant
            n <= entries.len(),
            entries == store@.history.entries,
            rows.deep_view() == entry_candidates(store@, n as int),
        decreases entries.len() - n,
    {
        let entry = store.history.entries.value_at(n);
        let key = store.history.entries.key_at(n);
        if is_prunable(entry) {
            let bytes: usize = entry_size(entry);
            let candidate = match rows.get(key) {
                Some(c) => Candidate {
                    age: c.age,
                    payload: c.payload.dup(),
                    bytes: add_up(c.bytes, bytes),
                },
                None => Candidate { age: entry.change, payload: Payload::Replica(key.dup()), bytes },
            };
            rows.put(key.dup(), candidate);
        }
        n += 1;
    }
    let ghost table = rows.deep_view();
    let mut list: Vec<Candidate> = Vec::new();
    let mut k: usize = 0;
    while k < rows.len()
        invariant
            k <= table.len(),
            table == rows.deep_view(),
            list.len() == k,
            forall|j: int| 0 <= j < k ==> (#[trigger] list@[j])@ == table[j].1,
        decreases table.len() - k,
    {
        list.push(rows.value_at(k).dup());
        k += 1;
    }
    assert(list.deep_view() =~= row_values(table));
    sort(list)
}

/// A job without its output.
pub open spec fn emptied(job: JobModel) -> JobModel {
    JobModel { stdout: Seq::empty(), stderr: Seq::empty(), ..job }
}

/// The invocation whose payload goes, with the job's own copy cleared.
pub open spec fn cleared(s: StoreModel, payload: PayloadModel) -> (StoreModel, Outcome<Seq<char>>) {
    match payload {
        PayloadModel::Replica(key) => (s, Ok(key)),
        PayloadModel::Local(id) => match table::lookup(s.job_certificates, id) {
            None => (s, Err(ErrorModel::Protocol("output has no admission record"@))),
            Some(key) => match search::first(s.jobs, job::job_with_id(id)) {
                None => (s, Err(ErrorModel::Protocol("output job disappeared"@))),
                Some(at) => (
                    StoreModel {
                        jobs: s.jobs.update(at, emptied(s.jobs[at])),
                        output_pruned: table::stored(s.output_pruned, id, ()),
                        ..s
                    },
                    Ok(key),
                ),
            },
        },
    }
}

/// One payload removed: its bytes go, its receipts stay.
pub open spec fn removed(s: StoreModel, payload: PayloadModel) -> (StoreModel, Outcome<()>) {
    let (next, step) = cleared(s, payload);
    match step {
        Err(e) => (next, Err(e)),
        Ok(key) => if s.history.clock == u64::MAX {
            (next, Err(ErrorModel::Protocol("history sequence exhausted"@)))
        } else {
            let change = (s.history.clock + 1) as u64;
            let entries = match table::lookup(s.history.entries, key) {
                Some(entry) => table::stored(
                    s.history.entries,
                    key,
                    EntryModel { output: None, change, ..entry },
                ),
                None => s.history.entries,
            };
            (
                StoreModel {
                    history: HistoryModel { clock: change, entries, ..s.history },
                    history_pruned: table::stored(s.history_pruned, key, ()),
                    ..next
                },
                Ok(()),
            )
        },
    }
}

/// Removing a payload frees bytes and never adds any.
pub proof fn lemma_removed_retains(s: StoreModel, payload: PayloadModel)
    ensures
        retained(removed(s, payload).0) <= retained(s),
        removed(s, payload).0.jobs.len() == s.jobs.len(),
{
    let (next, step) = cleared(s, payload);
    if let PayloadModel::Local(id) = payload {
        search::lemma_first(s.jobs, job::job_with_id(id));
        if let Some(at) = search::first(s.jobs, job::job_with_id(id)) {
            search::lemma_total_update(s.jobs, job_measure(), at, emptied(s.jobs[at]));
        }
    }
    if step is Ok && s.history.clock < u64::MAX {
        let key = step->Ok_0;
        if let Some(entry) = table::lookup(s.history.entries, key) {
            crate::table::lemma_rank_bounds(s.history.entries, key);
            let change = (s.history.clock + 1) as u64;
            search::lemma_total_update(
                s.history.entries,
                row_measure(),
                crate::table::rank(s.history.entries, key),
                (key, EntryModel { output: None, change, ..entry }),
            );
        }
    }
}

pub fn remove_payload(store: &mut Store, payload: &Payload) -> (result: Result<()>)
    ensures
        (final(store)@, error::outcome(result)) == removed(old(store)@, payload@),
{
    let ghost start = store@;
    let key = match payload {
        Payload::Local(id) => {
            let key = match store.job_certificates.get(id) {
                Some(key) => key.dup(),
                None => return Err(protocol("output has no admission record")),
            };
            let at: usize = match find_job(&store.jobs, id) {
                Some(at) => at,
                None => return Err(protocol("output job disappeared")),
            };
            assert(start.jobs[at as int] == store.jobs@[at as int]@);
            let mut job = store.jobs[at].dup();
            job.stdout = Vec::new();
            job.stderr = Vec::new();
            let ghost empty = job@;
            store.jobs[at] = job;
            assert(empty.stdout =~= Seq::empty() && empty.stderr =~= Seq::empty());
            assert(store.jobs.deep_view() =~= start.jobs.update(at as int, empty));
            store.output_pruned.put(id.dup(), ());
            key
        },
        Payload::Replica(key) => key.dup(),
    };
    if store.history.clock == u64::MAX {
        return Err(protocol("history sequence exhausted"));
    }
    let change: u64 = store.history.clock + 1;
    store.history.clock = change;
    let next: Option<Entry> = match store.history.entries.get(&key) {
        Some(entry) => {
            let mut entry = entry.dup();
            entry.output = None;
            entry.change = change;
            Some(entry)
        },
        None => None,
    };
    if let Some(entry) = next {
        store.history.entries.put(key.dup(), entry);
    }
    store.history_pruned.put(key, ());
    Ok(())
}

/// Payloads `i..n` removed in order.
pub open spec fn removed_between(s: StoreModel, list: Seq<CandidateModel>, i: int, n: int) -> (
    StoreModel,
    Outcome<()>,
)
    decreases n - i,
{
    if i >= n {
        (s, Ok(()))
    } else {
        let (next, step) = removed(s, list[i].payload);
        match step {
            Err(e) => (next, Err(e)),
            Ok(_) => removed_between(next, list, i + 1, n),
        }
    }
}

pub proof fn lemma_removed_between_retains(
    s: StoreModel,
    list: Seq<CandidateModel>,
    i: int,
    n: int,
)
    ensures
        retained(removed_between(s, list, i, n).0) <= retained(s),
    decreases n - i,
{
    if i < n {
        lemma_removed_retains(s, list[i].payload);
        let (next, step) = removed(s, list[i].payload);
        if step is Ok {
            lemma_removed_between_retains(next, list, i + 1, n);
        }
    }
}

/// How many of the oldest payloads go when the newest `keep` stay.
pub open spec fn prune_count(s: StoreModel, keep: usize) -> int {
    let n = removable(s).len();
    if n > keep {
        n - keep
    } else {
        0
    }
}

/// Explicit owner pruning. Facts, invocation identities, terminal outcomes and
/// both kinds of replay receipt survive; active jobs are never selected.
pub fn prune(store: &mut Store, keep: usize) -> (result: Result<usize>)
    ensures
        ({
            let start = old(store)@;
            let (next, step) = removed_between(start, removable(start), 0, prune_count(start, keep));
            &&& final(store)@ == next
            &&& error::outcome(result) == match step {
                Ok(_) => Ok::<usize, ErrorModel>(
                    (clamp(retained(start) as int) - clamp(retained(next) as int)) as usize,
                ),
                Err(e) => Err::<usize, ErrorModel>(e),
            }
        }),
{
    let ghost start = store@;
    let before: usize = output_bytes(store);
    let list = candidates(store);
    let ghost view = list.deep_view();
    let count: usize = if list.len() > keep {
        list.len() - keep
    } else {
        0
    };
    let mut i: usize = 0;
    while i < count
        invariant
            i <= count <= list.len(),
            start == old(store)@,
            view == list.deep_view(),
            view == removable(start),
            count == prune_count(start, keep),
            removed_between(start, view, 0, count as int) == removed_between(
                store@,
                view,
                i as int,
                count as int,
            ),
        decreases count - i,
    {
        assert(view[i as int] == list@[i as int]@);
        match remove_payload(store, &list[i].payload) {
            Ok(_) => {},
            Err(e) => return Err(e),
        }
        i += 1;
    }
    proof {
        lemma_removed_between_retains(start, view, 0, count as int);
    }
    Ok(before - output_bytes(store))
}

pub open spec fn limit_message(name: Seq<char>, max: usize) -> Seq<char> {
    name + " limit ("@ + text::decimal(max as nat)
        + ") reached; new admissions are refused, existing records are preserved"@
}

/// More than the limit, and more than before.
pub open spec fn over_limit(next: nat, old: nat, max: usize) -> bool {
    next > max && next > old
}

pub fn count_limit(name: &str, next: usize, old: usize, max: usize) -> (result: Result<()>)
    ensures
        error::outcome(result) == if over_limit(next as nat, old as nat, max) {
            Err::<(), ErrorModel>(ErrorModel::Capacity(limit_message(name@, max)))
        } else {
            Ok::<(), ErrorModel>(())
        },
{
    if next > max && next > old {
        return Err(
            capacity(
                cat4(
                    name,
                    " limit (",
                    decimal_text(max as u64).as_str(),
                    ") reached; new admissions are refused, existing records are preserved",
                ).as_str(),
            ),
        );
    }
    Ok(())
}

pub open spec fn limit_refusal(name: Seq<char>, max: usize) -> Outcome<()> {
    Err(ErrorModel::Capacity(limit_message(name, max)))
}

/// Each kind of record, within its limit or at least not growing.
pub open spec fn counts_outcome(next: StoreModel, old: StoreModel) -> Outcome<()> {
    if over_limit(next.jobs.len(), old.jobs.len(), MAX_JOBS) {
        limit_refusal("execution receipt"@, MAX_JOBS)
    } else if over_limit(next.history.entries.len(), old.history.entries.len(), MAX_HISTORY) {
        limit_refusal("history record"@, MAX_HISTORY)
    } else if over_limit(
        next.request_receipts.len(),
        old.request_receipts.len(),
        MAX_REQUEST_RECEIPTS,
    ) {
        limit_refusal("request delivery receipt"@, MAX_REQUEST_RECEIPTS)
    } else if over_limit(next.requests.len(), old.requests.len(), MAX_REQUESTS) {
        limit_refusal("pending request"@, MAX_REQUESTS)
    } else if over_limit(
        next.outbound_requests.len(),
        old.outbound_requests.len(),
        MAX_OUTBOUND,
    ) {
        limit_refusal("outbound request"@, MAX_OUTBOUND)
    } else if over_limit(next.peers.len(), old.peers.len(), MAX_PEERS) {
        limit_refusal("paired machine"@, MAX_PEERS)
    } else if over_limit(next.grants.len(), old.grants.len(), MAX_GRANTS) {
        limit_refusal("grant"@, MAX_GRANTS)
    } else {
        Ok(())
    }
}

fn check_counts(next: &Store, old: &Store) -> (result: Result<()>)
    ensures
        error::outcome(result) == counts_outcome(next@, old@),
{
    if let Err(e) = count_limit("execution receipt", next.jobs.len(), old.jobs.len(), MAX_JOBS) {
        return Err(e);
    }
    if let Err(e) = count_limit(
        "history record",
        next.history.entries.len(),
        old.history.entries.len(),
        MAX_HISTORY,
    ) {
        return Err(e);
    }
    if let Err(e) = count_limit(
        "request delivery receipt",
        next.request_receipts.len(),
        old.request_receipts.len(),
        MAX_REQUEST_RECEIPTS,
    ) {
        return Err(e);
    }
    if let Err(e) = count_limit(
        "pending request",
        next.requests.len(),
        old.requests.len(),
        MAX_REQUESTS,
    ) {
        return Err(e);
    }
    if let Err(e) = count_limit(
        "outbound request",
        next.outbound_requests.len(),
        old.outbound_requests.len(),
        MAX_OUTBOUND,
    ) {
        return Err(e);
    }
    if let Err(e) = count_limit("paired machine", next.peers.len(), old.peers.len(), MAX_PEERS) {
        return Err(e);
    }
    count_limit("grant", next.grants.len(), old.grants.len(), MAX_GRANTS)
}

/// Oldest payloads removed from `i` on, until the retained output fits.
pub open spec fn removed_until_fit(s: StoreModel, list: Seq<CandidateModel>, i: int) -> (
    StoreModel,
    Outcome<()>,
)
    decreases list.len() - i,
{
    if i >= list.len() || retained(s) <= OUTPUT_BYTES {
        (s, Ok(()))
    } else {
        let (next, step) = removed(s, list[i].payload);
        match step {
            Err(e) => (next, Err(e)),
            Ok(_) => removed_until_fit(next, list, i + 1),
        }
    }
}

/// A state about to be saved, brought within its limits or refused.
pub open spec fn prepared(next: StoreModel, old: StoreModel) -> (StoreModel, Outcome<()>) {
    if counts_outcome(next, old) is Err {
        (next, counts_outcome(next, old))
    } else if retained(next) <= OUTPUT_BYTES {
        (next, Ok(()))
    } else {
        let (trimmed, step) = removed_until_fit(next, removable(next), 0);
        if step is Err {
            (trimmed, step)
        } else if retained(trimmed) > OUTPUT_BYTES {
            (
                trimmed,
                Err(
                    ErrorModel::Capacity(
                        "retained output budget is full; active or unverified data was preserved"@,
                    ),
                ),
            )
        } else {
            (trimmed, Ok(()))
        }
    }
}

pub fn prepare(next: &mut Store, earlier: &Store) -> (result: Result<()>)
    ensures
        (final(next)@, error::outcome(result)) == prepared(old(next)@, earlier@),
{
    if let Err(e) = check_counts(next, earlier) {
        return Err(e);
    }
    if output_bytes(next) <= OUTPUT_BYTES {
        return Ok(());
    }
    let ghost start = next@;
    let list = candidates(next);
    let ghost view = list.deep_view();
    let mut i: usize = 0;
    let mut over: bool = true;
    while i < list.len() && over
        invariant
            i <= list.len(),
            view == list.deep_view(),
            view == removable(start),
            start == old(next)@,
            counts_outcome(start, earlier@) is Ok,
            retained(start) > OUTPUT_BYTES,
            over == (retained(next@) > OUTPUT_BYTES),
            removed_until_fit(start, view, 0) == removed_until_fit(next@, view, i as int),
        decreases list.len() - i,
    {
        assert(view[i as int] == list@[i as int]@);
        match remove_payload(next, &list[i].payload) {
            Ok(_) => {},
            Err(e) => return Err(e),
        }
        i += 1;
        over = output_bytes(next) > OUTPUT_BYTES;
    }
    if over {
        return Err(
            capacity("retained output budget is full; active or unverified data was preserved"),
        );
    }
    Ok(())
}

/// Digits of a byte in decimal.
pub open spec fn byte_digits(b: u8) -> nat {
    if b >= 100 {
        3
    } else if b >= 10 {
        2
    } else {
        1
    }
}

pub open spec fn digits_measure() -> spec_fn(u8) -> nat {
    |b: u8| byte_digits(b)
}

/// What bytes take inside the brackets of a JSON list: digits and commas.
pub open spec fn payload_size(bytes: Seq<u8>) -> nat {
    if bytes.len() == 0 {
        0
    } else {
        (search::total(bytes, digits_measure()) + bytes.len() - 1) as nat
    }
}

proof fn lemma_digits(bytes: Seq<u8>)
    ensures
        bytes.len() <= search::total(bytes, digits_measure()) <= 3 * bytes.len(),
    decreases bytes.len(),
{
    if bytes.len() > 0 {
        lemma_digits(bytes.drop_last());
    }
}

pub fn payload_json_bytes(bytes: &[u8]) -> (n: usize)
    ensures
        n == clamp(payload_size(bytes@) as int),
{
    if bytes.len() == 0 {
        return 0;
    }
    let mut n: usize = bytes.len() - 1;
    let mut i: usize = 0;
    assert(bytes@.take(0) =~= Seq::<u8>::empty());
    while i < bytes.len()
        invariant
            i <= bytes.len(),
            bytes.len() > 0,
            n == clamp(search::total(bytes@.take(i as int), digits_measure()) + bytes@.len() - 1),
        decreases bytes.len() - i,
    {
        proof {
            search::lemma_total_step(bytes@, digits_measure(), i as int);
        }
        let digits: usize = if bytes[i] >= 100 {
            3
        } else if bytes[i] >= 10 {
            2
        } else {
            1
        };
        n = add_up(n, digits);
        i += 1;
    }
    assert(bytes@.take(i as int) =~= bytes@);
    n
}

pub open spec fn job_payload() -> spec_fn(JobModel) -> nat {
    |j: JobModel| payload_size(j.stdout) + payload_size(j.stderr)
}

pub open spec fn row_payload() -> spec_fn((Seq<char>, EntryModel)) -> nat {
    |row: (Seq<char>, EntryModel)|
        match row.1.output {
            Some(o) => payload_size(o.stdout) + payload_size(o.stderr),
            None => 0,
        }
}

/// What all retained output takes in the encoded state.
pub open spec fn payload_total(s: StoreModel) -> nat {
    search::total(s.jobs, job_payload()) + search::total(s.history.entries, row_payload())
}

/// A name as a member of a JSON list: its string and a comma.
pub open spec fn receipt_size(name: Seq<char>) -> nat {
    text::byte_len(json::json_string_text(name)) + 1
}

pub open spec fn job_receipt(pruned: Seq<(Seq<char>, ())>) -> spec_fn(JobModel) -> nat {
    |j: JobModel|
        if table::holds(pruned, j.id) {
            0
        } else {
            receipt_size(j.id)
        }
}

pub open spec fn row_receipt(pruned: Seq<(Seq<char>, ())>) -> spec_fn(
    (Seq<char>, EntryModel),
) -> nat {
    |row: (Seq<char>, EntryModel)|
        if table::holds(pruned, row.0) {
            0
        } else {
            receipt_size(row.0)
        }
}

/// Room for the receipts that pruning everything would leave.
pub open spec fn receipt_total(s: StoreModel) -> nat {
    search::total(s.jobs, job_receipt(s.output_pruned)) + search::total(
        s.history.entries,
        row_receipt(s.history_pruned),
    )
}

/// Digits by which a sequence number may still grow.
pub open spec fn headroom(n: u64) -> nat {
    (20 - text::decimal(n as nat).len()) as nat
}

pub open spec fn row_headroom() -> spec_fn((Seq<char>, EntryModel)) -> nat {
    |row: (Seq<char>, EntryModel)| headroom(row.1.change)
}

pub open spec fn headroom_total(s: StoreModel) -> nat {
    headroom(s.history.clock) + search::total(s.history.entries, row_headroom())
}

pub open spec fn open_job() -> spec_fn(JobModel) -> nat {
    |j: JobModel|
        if job::terminal(j.status) {
            0
        } else {
            1
        }
}

/// What a state may still grow to while it finishes the work it has accepted:
/// its metadata, the receipts and digits that pruning may add, the whole output
/// budget at its widest, and a reserve for every job that is not finished.
pub open spec fn charge(s: StoreModel, encoded: nat) -> nat {
    let payload = clamp(payload_total(s) as int) as nat;
    let metadata = if encoded > payload {
        (encoded - payload) as nat
    } else {
        0
    };
    (metadata + receipt_total(s) + headroom_total(s) + OUTPUT_BYTES * 4 + search::total(
        s.jobs,
        open_job(),
    ) * COMPLETION_RESERVE) as nat
}

pub proof fn lemma_decimal_len(n: nat)
    requires
        n <= u64::MAX,
    ensures
        1 <= text::decimal(n).len() <= 20,
{
    reveal_with_fuel(text::decimal, 21);
}

fn digits_left(n: u64) -> (room: usize)
    ensures
        room == headroom(n),
{
    proof {
        lemma_decimal_len(n as nat);
    }
    let text = decimal_text(n);
    let chars = crate::text::chars_of(text.as_str());
    20 - chars.len()
}

fn payload_of_store(store: &Store) -> (bytes: usize)
    ensures
        bytes == clamp(payload_total(store@) as int),
{
    let ghost jobs = store@.jobs;
    let ghost entries = store@.history.entries;
    let mut bytes: usize = 0;
    let mut i: usize = 0;
    assert(jobs.take(0) =~= Seq::<JobModel>::empty());
    while i < store.jobs.len()
        invariant
            i <= store.jobs.len(),
            jobs == store@.jobs,
            bytes == clamp(search::total(jobs.take(i as int), job_payload()) as int),
        decreases store.jobs.len() - i,
    {
        let job = &store.jobs[i];
        assert(jobs[i as int] == job@);
        proof {
            search::lemma_total_step(jobs, job_payload(), i as int);
        }
        bytes = add_up(
            bytes,
            add_up(payload_json_bytes(&job.stdout), payload_json_bytes(&job.stderr)),
        );
        i += 1;
    }
    assert(jobs.take(i as int) =~= jobs);
    let ghost base = search::total(jobs, job_payload());
    let mut k: usize = 0;
    assert(entries.take(0) =~= Seq::<(Seq<char>, EntryModel)>::empty());
    while k < store.history.entries.len()
        invariant
            k <= entries.len(),
            entries == store@.history.entries,
            bytes == clamp((base + search::total(entries.take(k as int), row_payload())) as int),
        decreases entries.len() - k,
    {
        proof {
            search::lemma_total_step(entries, row_payload(), k as int);
        }
        if let Some(o) = &store.history.entries.value_at(k).output {
            bytes = add_up(
                bytes,
                add_up(payload_json_bytes(&o.stdout), payload_json_bytes(&o.stderr)),
            );
        }
        k += 1;
    }
    assert(entries.take(k as int) =~= entries);
    bytes
}

fn receipts_of_store(store: &Store) -> (bytes: usize)
    ensures
        bytes == clamp(receipt_total(store@) as int),
{
    let ghost jobs = store@.jobs;
    let ghost entries = store@.history.entries;
    let ghost of_job = job_receipt(store@.output_pruned);
    let ghost of_row = row_receipt(store@.history_pruned);
    let mut bytes: usize = 0;
    let mut i: usize = 0;
    assert(jobs.take(0) =~= Seq::<JobModel>::empty());
    while i < store.jobs.len()
        invariant
            i <= store.jobs.len(),
            jobs == store@.jobs,
            of_job == job_receipt(store@.output_pruned),
            bytes == clamp(search::total(jobs.take(i as int), of_job) as int),
        decreases store.jobs.len() - i,
    {
        let job = &store.jobs[i];
        assert(jobs[i as int] == job@);
        proof {
            search::lemma_total_step(jobs, of_job, i as int);
        }
        if !store.output_pruned.has(&job.id) {
            bytes = add_up(bytes, add_up(text_bytes(json_string(&job.id).as_str()), 1));
        }
        i += 1;
    }
    assert(jobs.take(i as int) =~= jobs);
    let ghost base = search::total(jobs, of_job);
    let mut k: usize = 0;
    assert(entries.take(0) =~= Seq::<(Seq<char>, EntryModel)>::empty());
    while k < store.history.entries.len()
        invariant
            k <= entries.len(),
            entries == store@.history.entries,
            of_row == row_receipt(store@.history_pruned),
            bytes == clamp((base + search::total(entries.take(k as int), of_row)) as int),
        decreases entries.len() - k,
    {
        proof {
            search::lemma_total_step(entries, of_row, k as int);
        }
        let key = store.history.entries.key_at(k);
        if !store.history_pruned.has(key) {
            bytes = add_up(bytes, add_up(text_bytes(json_string(key).as_str()), 1));
        }
        k += 1;
    }
    assert(entries.take(k as int) =~= entries);
    bytes
}

fn headroom_of_store(store: &Store) -> (digits: usize)
    ensures
        digits == clamp(headroom_total(store@) as int),
{
    let ghost entries = store@.history.entries;
    let ghost base = headroom(store@.history.clock);
    let mut digits: usize = digits_left(store.history.clock);
    let mut k: usize = 0;
    assert(entries.take(0) =~= Seq::<(Seq<char>, EntryModel)>::empty());
    while k < store.history.entries.len()
        invariant
            k <= entries.len(),
            entries == store@.history.entries,
            digits == clamp((base + search::total(entries.take(k as int), row_headroom())) as int),
        decreases entries.len() - k,
    {
        proof {
            search::lemma_total_step(entries, row_headroom(), k as int);
        }
        digits = add_up(digits, digits_left(store.history.entries.value_at(k).change));
        k += 1;
    }
    assert(entries.take(k as int) =~= entries);
    digits
}

fn open_jobs(store: &Store) -> (n: usize)
    ensures
        n == search::total(store@.jobs, open_job()),
{
    let ghost jobs = store@.jobs;
    let mut n: usize = 0;
    let mut i: usize = 0;
    assert(jobs.take(0) =~= Seq::<JobModel>::empty());
    while i < store.jobs.len()
        invariant
            i <= store.jobs.len(),
            n <= i,
            jobs == store@.jobs,
            n == search::total(jobs.take(i as int), open_job()),
        decreases store.jobs.len() - i,
    {
        assert(jobs[i as int] == store.jobs@[i as int]@);
        proof {
            search::lemma_total_step(jobs, open_job(), i as int);
        }
        if !is_terminal(&store.jobs[i].status) {
            n += 1;
        }
        i += 1;
    }
    assert(jobs.take(i as int) =~= jobs);
    n
}

fn reserve_for(n: usize) -> (bytes: usize)
    ensures
        bytes == clamp(n * COMPLETION_RESERVE),
{
    if n > usize::MAX / COMPLETION_RESERVE {
        assert(n * COMPLETION_RESERVE > usize::MAX) by (nonlinear_arith)
            requires
                n > usize::MAX / COMPLETION_RESERVE,
                COMPLETION_RESERVE == 2 * 1024 * 1024,
        ;
        usize::MAX
    } else {
        assert(n * COMPLETION_RESERVE <= usize::MAX) by (nonlinear_arith)
            requires
                n <= usize::MAX / COMPLETION_RESERVE,
                COMPLETION_RESERVE == 2 * 1024 * 1024,
        ;
        n * COMPLETION_RESERVE
    }
}

/// The capacity charge of a state whose encoding has `encoded_bytes`.
pub fn completion_charge(store: &Store, encoded_bytes: usize) -> (bytes: usize)
    ensures
        bytes == clamp(charge(store@, encoded_bytes as nat) as int),
{
    let payload: usize = payload_of_store(store);
    let metadata: usize = if encoded_bytes > payload {
        encoded_bytes - payload
    } else {
        0
    };
    let receipts: usize = receipts_of_store(store);
    let sequences: usize = headroom_of_store(store);
    let pending: usize = open_jobs(store);
    let reserve: usize = reserve_for(pending);
    add_up(
        add_up(add_up(add_up(metadata, receipts), sequences), OUTPUT_BYTES * 4),
        reserve,
    )
}

/// Whether a state leaves room for what it has accepted.
pub fn within_reserve(store: &Store, encoded_bytes: usize) -> (yes: bool)
    ensures
        yes == (charge(store@, encoded_bytes as nat) <= STATE_BYTES),
{
    completion_charge(store, encoded_bytes) <= STATE_BYTES
}

/// An upgraded state may already exceed this policy. Preserve inspection,
/// removals and completion while refusing updates that increase its charge.
pub fn reserve_completion(
    store: &Store,
    earlier: &Store,
    encoded_bytes: usize,
    old_encoded_bytes: usize,
) -> (result: Result<()>)
    ensures
        error::outcome(result) == if charge(store@, encoded_bytes as nat) <= STATE_BYTES || clamp(
            charge(store@, encoded_bytes as nat) as int,
        ) <= clamp(charge(earlier@, old_encoded_bytes as nat) as int) {
            Ok::<(), ErrorModel>(())
        } else {
            Err::<(), ErrorModel>(
                ErrorModel::Capacity(
                    "state capacity is reserved for admitted job outcomes; new work is refused"@,
                ),
            )
        },
{
    let charge: usize = completion_charge(store, encoded_bytes);
    if charge <= STATE_BYTES {
        return Ok(());
    }
    if charge <= completion_charge(earlier, old_encoded_bytes) {
        return Ok(());
    }
    Err(capacity("state capacity is reserved for admitted job outcomes; new work is refused"))
}

/// Whether an encoded state may be written at all.
pub fn check_encoded(encoded_bytes: usize) -> (result: Result<()>)
    ensures
        error::outcome(result) == if encoded_bytes <= STATE_BYTES {
            Ok::<(), ErrorModel>(())
        } else {
            Err::<(), ErrorModel>(
                ErrorModel::Capacity("Clix state exceeds 128 MiB; new work is refused"@),
            )
        },
{
    if encoded_bytes > STATE_BYTES {
        return Err(capacity("Clix state exceeds 128 MiB; new work is refused"));
    }
    Ok(())
}

/// What `clix storage status` reports.
#[derive(Debug, Clone, PartialEq, Eq)]
pub struct StorageStatus {
    pub state_limit_bytes: usize,
    pub retained_output_limit_bytes: usize,
    pub retained_output_bytes: usize,
    pub admitted_job_records: usize,
    pub execution_receipt_limit: usize,
    pub request_receipts: usize,
    pub request_receipt_limit: usize,
    pub history_records: usize,
    pub history_record_limit: usize,
    pub storage_error: Option<String>,
    pub running_children_limit: usize,
    pub outbound_attempt_limit: usize,
}

/// What a `StorageStatus` says.
#[verifier::ext_equal]
pub struct StorageStatusModel {
    pub state_limit_bytes: usize,
    pub retained_output_limit_bytes: usize,
    pub retained_output_bytes: usize,
    pub admitted_job_records: usize,
    pub execution_receipt_limit: usize,
    pub request_receipts: usize,
    pub request_receipt_limit: usize,
    pub history_records: usize,
    pub history_record_limit: usize,
    pub storage_error: Option<Seq<char>>,
    pub running_children_limit: usize,
    pub outbound_attempt_limit: usize,
}

impl View for StorageStatus {
    type V = StorageStatusModel;

    open spec fn view(&self) -> StorageStatusModel {
        StorageStatusModel {
            state_limit_bytes: self.state_limit_bytes,
            retained_output_limit_bytes: self.retained_output_limit_bytes,
            retained_output_bytes: self.retained_output_bytes,
            admitted_job_records: self.admitted_job_records,
            execution_receipt_limit: self.execution_receipt_limit,
            request_receipts: self.request_receipts,
            request_receipt_limit: self.request_receipt_limit,
            history_records: self.history_records,
            history_record_limit: self.history_record_limit,
            storage_error: self.storage_error.deep_view(),
            running_children_limit: self.running_children_limit,
            outbound_attempt_limit: self.outbound_attempt_limit,
        }
    }
}

impl DeepView for StorageStatus {
    type V = StorageStatusModel;

    open spec fn deep_view(&self) -> StorageStatusModel {
        self@
    }
}

impl Data for StorageStatus {
    fn dup(&self) -> (copy: Self) {
        StorageStatus {
            state_limit_bytes: self.state_limit_bytes,
            retained_output_limit_bytes: self.retained_output_limit_bytes,
            retained_output_bytes: self.retained_output_bytes,
            admitted_job_records: self.admitted_job_records,
            execution_receipt_limit: self.execution_receipt_limit,
            request_receipts: self.request_receipts,
            request_receipt_limit: self.request_receipt_limit,
            history_records: self.history_records,
            history_record_limit: self.history_record_limit,
            storage_error: self.storage_error.dup(),
            running_children_limit: self.running_children_limit,
            outbound_attempt_limit: self.outbound_attempt_limit,
        }
    }

    fn same(&self, other: &Self) -> (equal: bool) {
        self.state_limit_bytes == other.state_limit_bytes
            && self.retained_output_limit_bytes == other.retained_output_limit_bytes
            && self.retained_output_bytes == other.retained_output_bytes
            && self.admitted_job_records == other.admitted_job_records
            && self.execution_receipt_limit == other.execution_receipt_limit
            && self.request_receipts == other.request_receipts
            && self.request_receipt_limit == other.request_receipt_limit
            && self.history_records == other.history_records
            && self.history_record_limit == other.history_record_limit
            && self.storage_error.same(&other.storage_error)
            && self.running_children_limit == other.running_children_limit
            && self.outbound_attempt_limit == other.outbound_attempt_limit
    }
}

pub fn status(store: &Store) -> (report: StorageStatus)
    ensures
        report@ == (StorageStatusModel {
            state_limit_bytes: STATE_BYTES,
            retained_output_limit_bytes: OUTPUT_BYTES,
            retained_output_bytes: clamp(retained(store@) as int),
            admitted_job_records: store@.jobs.len() as usize,
            execution_receipt_limit: MAX_JOBS,
            request_receipts: store@.request_receipts.len() as usize,
            request_receipt_limit: MAX_REQUEST_RECEIPTS,
            history_records: store@.history.entries.len() as usize,
            history_record_limit: MAX_HISTORY,
            storage_error: store@.write_error,
            running_children_limit: crate::limits::CHILDREN,
            outbound_attempt_limit: crate::limits::DISPATCH,
        }),
{
    StorageStatus {
        state_limit_bytes: STATE_BYTES,
        retained_output_limit_bytes: OUTPUT_BYTES,
        retained_output_bytes: output_bytes(store),
        admitted_job_records: store.jobs.len(),
        execution_receipt_limit: MAX_JOBS,
        request_receipts: store.request_receipts.len(),
        request_receipt_limit: MAX_REQUEST_RECEIPTS,
        history_records: store.history.entries.len(),
        history_record_limit: MAX_HISTORY,
        storage_error: store.write_error.dup(),
        running_children_limit: crate::limits::CHILDREN,
        outbound_attempt_limit: crate::limits::DISPATCH,
    }
}

} // verus!
