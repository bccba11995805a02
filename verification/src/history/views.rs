//! What this machine shows of every job it knows about.

use vstd::prelude::*;
use vstd::string::*;

use crate::data::Data;
use crate::history::merge;
use crate::history::merge::take_output;
use crate::history::publish;
use crate::history::record::{
    Entry, EntryModel, JobView, JobViewModel, Observation, ObservationModel, OutputRef, Record,
    RecordModel, SignedFact, SignedFactModel,
};
use crate::history::wire;
use crate::history::wire::key_of;
use crate::json;
use crate::json::{json_optional, json_string, json_texts};
use crate::order;
use crate::order::{sort, Ranked};
use crate::store::{Store, StoreModel};
use crate::table;
use crate::table::Table;
use crate::text;
use crate::text::{cat2, owned, text_less, text_same};
use crate::types::{BodyId, Job, JobModel, JobStatus};

verus! {

/// A job with the weight of the evidence that it is shown by.
#[derive(Debug)]
pub struct Row {
    /// Evidence counts in this order: none, another machine's old record, the
    /// origin's observation, the runner's old record, the runner's signature.
    pub priority: u8,
    pub view: JobView,
}

/// What a `Row` says.
#[verifier::ext_equal]
pub struct RowModel {
    pub priority: u8,
    pub view: JobViewModel,
}

impl View for Row {
    type V = RowModel;

    open spec fn view(&self) -> RowModel {
        RowModel {
            priority: self.priority,
            view: self.view.deep_view(),
        }
    }
}

impl DeepView for Row {
    type V = RowModel;

    open spec fn deep_view(&self) -> RowModel {
        self@
    }
}

impl Data for Row {
    fn dup(&self) -> (copy: Self) {
        Row {
            priority: self.priority,
            view: self.view.dup(),
        }
    }

    fn same(&self, other: &Self) -> (equal: bool) {
        self.priority == other.priority
            && self.view.same(&other.view)
    }
}

/// A job with its place in display order.
#[derive(Debug)]
pub struct Seen {
    pub sequence: u64,
    pub view: JobView,
}

/// What a `Seen` says.
#[verifier::ext_equal]
pub struct SeenModel {
    pub sequence: u64,
    pub view: JobViewModel,
}

impl View for Seen {
    type V = SeenModel;

    open spec fn view(&self) -> SeenModel {
        SeenModel {
            sequence: self.sequence,
            view: self.view.deep_view(),
        }
    }
}

impl DeepView for Seen {
    type V = SeenModel;

    open spec fn deep_view(&self) -> SeenModel {
        self@
    }
}

impl Data for Seen {
    fn dup(&self) -> (copy: Self) {
        Seen {
            sequence: self.sequence,
            view: self.view.dup(),
        }
    }

    fn same(&self, other: &Self) -> (equal: bool) {
        self.sequence == other.sequence
            && self.view.same(&other.view)
    }
}

impl Ranked for Observation {
    open spec fn before(a: ObservationModel, b: ObservationModel) -> bool {
        text::text_lt(a.invocation, b.invocation)
    }

    fn is_before(&self, other: &Self) -> (yes: bool) {
        text_less(&self.invocation, &other.invocation)
    }
}

impl Ranked for Seen {
    open spec fn before(a: SeenModel, b: SeenModel) -> bool {
        a.sequence < b.sequence || (a.sequence == b.sequence && text::text_lt(
            a.view.job.id,
            b.view.job.id,
        ))
    }

    fn is_before(&self, other: &Self) -> (yes: bool) {
        self.sequence < other.sequence || (self.sequence == other.sequence && text_less(
            &self.view.job.id,
            &other.view.job.id,
        ))
    }
}

/// The jobs asked for: one by its ID, or all of them.
pub open spec fn wanted(id: Option<Seq<char>>, candidate: Seq<char>) -> bool {
    id is None || id->0 == candidate
}

/// The meaning of an optional text.
pub open spec fn optional_text(id: Option<&str>) -> Option<Seq<char>> {
    match id {
        Some(text) => Some(text@),
        None => None,
    }
}

fn is_wanted(id: Option<&str>, candidate: &str) -> (yes: bool)
    ensures
        yes == wanted(optional_text(id), candidate@),
{
    match id {
        Some(text) => text_same(text, candidate),
        None => true,
    }
}

/// Records of the same job, shown as one. This groups for display; it is no
/// admission or signature lookup.
pub open spec fn group_of(job: JobModel, retry_of: Option<Seq<char>>) -> Seq<char> {
    "["@ + json::json_string_text(job.id) + ","@ + json::json_string_text(job.from) + ","@ + json::json_string_text(
        job.body,
    ) + ","@ + json::json_list(json::text_items(job.argv)) + ","@ + json::json_optional_text(retry_of) + "]"@
}

fn view_group(job: &Job, retry_of: &Option<String>) -> (group: String)
    ensures
        group@ == group_of(job@, retry_of.deep_view()),
{
    let mut group = owned("[");
    group.append(json_string(&job.id).as_str());
    group.append(",");
    group.append(json_string(&job.from.0).as_str());
    group.append(",");
    group.append(json_string(&job.body.0).as_str());
    group.append(",");
    group.append(json_texts(&job.argv).as_str());
    group.append(",");
    group.append(json_optional(retry_of.as_ref()).as_str());
    group.append("]");
    group
}

/// A job that this machine admitted, before anything signed is known of it.
pub open spec fn local_row(s: StoreModel, job: JobModel) -> RowModel {
    RowModel {
        priority: 0,
        view: JobViewModel {
            job,
            invocation: None,
            retry_of: table::lookup(s.retry_links, job.id),
            provenance: "local record; publication identity is unresolved"@,
            output_available: !crate::table::holds(s.output_pruned, job.id),
            stdout: wire::output_ref(job.stdout),
            stderr: wire::output_ref(job.stderr),
            observations: Seq::empty(),
            local_warning: None,
        },
    }
}

fn make_local_row(store: &Store, job: &Job, retry_of: Option<String>) -> (row: Row)
    requires
        retry_of.deep_view() == table::lookup(store@.retry_links, job@.id),
    ensures
        row@ == local_row(store@, job@),
{
    let observations: Vec<Observation> = Vec::new();
    assert(observations.deep_view() =~= Seq::empty());
    Row {
        priority: 0,
        view: JobView {
            job: job.dup(),
            invocation: None,
            retry_of,
            provenance: owned("local record; publication identity is unresolved"),
            output_available: !store.output_pruned.has(&job.id),
            stdout: OutputRef::of(&job.stdout),
            stderr: OutputRef::of(&job.stderr),
            observations,
            local_warning: None,
        },
    }
}

fn retry_link(store: &Store, id: &str) -> (retry_of: Option<String>)
    ensures
        retry_of.deep_view() == table::lookup(store@.retry_links, id@),
{
    match store.retry_links.get(id) {
        Some(old) => Some(old.dup()),
        None => None,
    }
}

/// The rows of the first `n` jobs. A later job of the same group replaces an earlier one.
pub open spec fn job_rows(s: StoreModel, id: Option<Seq<char>>, n: int) -> Seq<
    (Seq<char>, RowModel),
>
    decreases n,
{
    if n <= 0 {
        Seq::empty()
    } else {
        let job = s.jobs[n - 1];
        let rows = job_rows(s, id, n - 1);
        if wanted(id, job.id) {
            table::stored(rows, group_of(job, table::lookup(s.retry_links, job.id)), local_row(s, job))
        } else {
            rows
        }
    }
}

fn rows_from_jobs(store: &Store, id: Option<&str>) -> (rows: Table<Row>)
    ensures
        rows.deep_view() == job_rows(store@, optional_text(id), store@.jobs.len() as int),
{
    let mut rows: Table<Row> = Table::new();
    let mut i: usize = 0;
    while i < store.jobs.len()
        invariant
            i <= store.jobs.len(),
            rows.deep_view() == job_rows(store@, optional_text(id), i as int),
        decreases store.jobs.len() - i,
    {
        let job = &store.jobs[i];
        assert(store@.jobs[i as int] == job@);
        if is_wanted(id, &job.id) {
            let retry_of = retry_link(store, &job.id);
            let group = view_group(job, &retry_of);
            rows.put(group, make_local_row(store, job, retry_of));
        }
        i += 1;
    }
    rows
}

/// How much an entry's evidence weighs, and what it is called.
pub open spec fn evidence(record: RecordModel) -> (u8, Seq<char>) {
    let i = record.certificate.invocation;
    match i.legacy_observer {
        Some(observer) => (
            if observer == i.body {
                3u8
            } else {
                1u8
            },
            "legacy record observed by "@ + observer,
        ),
        None => if record.runner is Some {
            (4u8, "verified runner result"@)
        } else {
            (2u8, "origin delivery observation; runner outcome not known"@)
        },
    }
}

fn weigh(record: &Record) -> (found: (u8, String))
    ensures
        (found.0, found.1@) == evidence(record@),
{
    let i = &record.certificate.invocation;
    match &i.legacy_observer {
        Some(observer) => {
            let weight: u8 = if observer.same(&i.body) {
                3
            } else {
                1
            };
            (weight, cat2("legacy record observed by ", &observer.0))
        },
        None => if record.runner.is_some() {
            (4, owned("verified runner result"))
        } else {
            (2, owned("origin delivery observation; runner outcome not known"))
        },
    }
}

pub open spec fn observation_of(
    key: Seq<char>,
    observer: Option<Seq<char>>,
    signed: SignedFactModel,
) -> ObservationModel {
    ObservationModel {
        invocation: key,
        role: signed.fact.role,
        legacy_observer: observer,
        status: signed.fact.status,
    }
}

/// What a record's authors said, the origin first.
pub open spec fn observations_of(record: RecordModel) -> Seq<ObservationModel> {
    let key = wire::invocation_key(record.certificate);
    let observer = record.certificate.invocation.legacy_observer;
    let first = match record.origin {
        Some(f) => seq![observation_of(key, observer, f)],
        None => Seq::empty(),
    };
    match record.runner {
        Some(f) => first.push(observation_of(key, observer, f)),
        None => first,
    }
}

fn observe(key: &String, observer: &Option<BodyId>, signed: &SignedFact) -> (seen: Observation)
    ensures
        seen@ == observation_of(key@, observer.deep_view(), signed@),
{
    Observation {
        invocation: key.dup(),
        role: signed.fact.role,
        legacy_observer: observer.dup(),
        status: signed.fact.status.dup(),
    }
}

fn observe_record(record: &Record, key: &String) -> (seen: Vec<Observation>)
    requires
        key@ == wire::invocation_key(record@.certificate),
    ensures
        seen.deep_view() == observations_of(record@),
{
    let observer = &record.certificate.invocation.legacy_observer;
    let mut seen: Vec<Observation> = Vec::new();
    if let Some(f) = &record.origin {
        seen.push(observe(key, observer, f));
    }
    if let Some(f) = &record.runner {
        seen.push(observe(key, observer, f));
    }
    assert(seen.deep_view() =~= observations_of(record@));
    seen
}

/// The job that an entry's selected fact describes, with the bytes held here.
pub open spec fn entry_job(s: StoreModel, entry: EntryModel) -> JobModel {
    let i = entry.record.certificate.invocation;
    let fact = entry.record.selected()->0.fact;
    let local = match publish::last_at(s.jobs, i.id) {
        Some(at) => Some(s.jobs[at]),
        None => None,
    };
    let output = merge::selected_output(s, entry, local);
    JobModel {
        id: i.id,
        from: i.from,
        body: i.body,
        argv: i.argv,
        status: fact.status,
        stdout: match output {
            Some(o) => o.stdout,
            None => Seq::empty(),
        },
        stderr: match output {
            Some(o) => o.stderr,
            None => Seq::empty(),
        },
    }
}

pub open spec fn entry_row(s: StoreModel, entry: EntryModel) -> RowModel {
    let i = entry.record.certificate.invocation;
    let fact = entry.record.selected()->0.fact;
    let local = match publish::last_at(s.jobs, i.id) {
        Some(at) => Some(s.jobs[at]),
        None => None,
    };
    RowModel {
        priority: evidence(entry.record).0,
        view: JobViewModel {
            job: entry_job(s, entry),
            invocation: Some(wire::invocation_key(entry.record.certificate)),
            retry_of: i.retry_of,
            provenance: evidence(entry.record).1,
            output_available: merge::selected_output(s, entry, local) is Some || (fact.stdout.bytes == 0
                && fact.stderr.bytes == 0),
            stdout: fact.stdout,
            stderr: fact.stderr,
            observations: observations_of(entry.record),
            local_warning: None,
        },
    }
}

fn make_entry_row(store: &Store, entry: &Entry, fact: &SignedFact, local: Option<&Job>) -> (row:
    Row)
    requires
        entry@.record.selected() == Some(fact@),
        (match local {
            Some(job) => publish::last_at(store@.jobs, entry@.record.certificate.invocation.id) is Some
                && job@ == store@.jobs[publish::last_at(
                store@.jobs,
                entry@.record.certificate.invocation.id,
            )->0],
            None => publish::last_at(store@.jobs, entry@.record.certificate.invocation.id) is None,
        }),
    ensures
        row@ == entry_row(store@, entry@),
{
    let i = &entry.record.certificate.invocation;
    let output = take_output(store, entry, local);
    let output_available: bool = output.is_some() || (fact.fact.stdout.bytes == 0
        && fact.fact.stderr.bytes == 0);
    let mut stdout: Vec<u8> = Vec::new();
    let mut stderr: Vec<u8> = Vec::new();
    if let Some(o) = output {
        stdout = o.stdout;
        stderr = o.stderr;
    }
    let key = key_of(&entry.record.certificate);
    let (priority, provenance) = weigh(&entry.record);
    let observations = observe_record(&entry.record, &key);
    let job = Job {
        id: i.id.dup(),
        from: i.from.dup(),
        body: i.body.dup(),
        argv: i.argv.dup(),
        status: fact.fact.status.dup(),
        stdout,
        stderr,
    };
    Row {
        priority,
        view: JobView {
            job,
            invocation: Some(key),
            retry_of: i.retry_of.dup(),
            provenance,
            output_available,
            stdout: fact.fact.stdout.dup(),
            stderr: fact.fact.stderr.dup(),
            observations,
            local_warning: None,
        },
    }
}

/// Heavier evidence takes over the row; every observation stays.
pub open spec fn joined(old: Option<RowModel>, row: RowModel) -> RowModel {
    match old {
        None => row,
        Some(o) => if row.priority > o.priority {
            RowModel {
                view: JobViewModel {
                    observations: row.view.observations + o.view.observations,
                    ..row.view
                },
                ..row
            }
        } else {
            RowModel {
                view: JobViewModel {
                    observations: o.view.observations + row.view.observations,
                    ..o.view
                },
                ..o
            }
        },
    }
}

fn append_all(to: &mut Vec<Observation>, from: &Vec<Observation>)
    ensures
        final(to).deep_view() == old(to).deep_view() + from.deep_view(),
{
    let ghost start = to.deep_view();
    let ghost add = from.deep_view();
    let mut i: usize = 0;
    assert(start + add.take(0) =~= start);
    while i < from.len()
        invariant
            i <= from.len(),
            add == from.deep_view(),
            to.deep_view() == start + add.take(i as int),
        decreases from.len() - i,
    {
        let ghost before = to.deep_view();
        to.push(from[i].dup());
        proof {
            assert(to.deep_view() =~= before.push(add[i as int]));
            assert(start + add.take(i + 1) =~= (start + add.take(i as int)).push(add[i as int]));
        }
        i += 1;
    }
    assert(add.take(i as int) =~= add);
}

fn join(old: Option<&Row>, row: Row) -> (merged: Row)
    ensures
        merged@ == joined(
            match old {
                Some(o) => Some(o@),
                None => None,
            },
            row@,
        ),
{
    match old {
        None => row,
        Some(o) => if row.priority > o.priority {
            let mut row = row;
            append_all(&mut row.view.observations, &o.view.observations);
            row
        } else {
            let mut kept = o.dup();
            append_all(&mut kept.view.observations, &row.view.observations);
            kept
        },
    }
}

/// The rows after the first `n` entries, in key order.
pub open spec fn entry_rows(s: StoreModel, id: Option<Seq<char>>, n: int) -> Seq<
    (Seq<char>, RowModel),
>
    decreases n,
{
    if n <= 0 {
        job_rows(s, id, s.jobs.len() as int)
    } else {
        let rows = entry_rows(s, id, n - 1);
        let entry = s.history.entries[n - 1].1;
        let i = entry.record.certificate.invocation;
        if wanted(id, i.id) && entry.record.selected() is Some {
            let group = group_of(entry_job(s, entry), i.retry_of);
            table::stored(rows, group, joined(table::lookup(rows, group), entry_row(s, entry)))
        } else {
            rows
        }
    }
}

fn local_index(store: &Store, id: &str) -> (at: Option<usize>)
    ensures
        (match at {
            Some(i) => i < store@.jobs.len() && publish::last_at(store@.jobs, id@) == Some(i as int),
            None => publish::last_at(store@.jobs, id@) is None,
        }),
{
    let ghost jobs = store@.jobs;
    let mut n: usize = store.jobs.len();
    assert(jobs.take(n as int) =~= jobs);
    while n > 0
        invariant
            n <= store.jobs.len(),
            jobs == store@.jobs,
            jobs.len() == store.jobs.len(),
            publish::last_at(jobs, id@) == publish::last_at(jobs.take(n as int), id@),
        decreases n,
    {
        assert(jobs[n - 1] == store.jobs@[n - 1]@);
        assert(jobs.take(n as int).last() == jobs[n - 1]);
        if text_same(&store.jobs[n - 1].id, id) {
            return Some(n - 1);
        }
        assert(jobs.take(n as int).drop_last() =~= jobs.take(n - 1));
        n -= 1;
    }
    None
}

fn add_entry_rows(store: &Store, id: Option<&str>, rows: &mut Table<Row>)
    requires
        old(rows).deep_view() == job_rows(store@, optional_text(id), store@.jobs.len() as int),
    ensures
        final(rows).deep_view() == entry_rows(
            store@,
            optional_text(id),
            store@.history.entries.len() as int,
        ),
{
    let ghost entries = store@.history.entries;
    let mut n: usize = 0;
    while n < store.history.entries.len()
        invariant
            n <= entries.len(),
            entries == store@.history.entries,
            rows.deep_view() == entry_rows(store@, optional_text(id), n as int),
        decreases entries.len() - n,
    {
        let entry = store.history.entries.value_at(n);
        assert(entries[n as int].1 == entry@);
        let i = &entry.record.certificate.invocation;
        if is_wanted(id, &i.id) {
            if let Some(fact) = entry.record.selected() {
                let at = local_index(store, &i.id);
                let local: Option<&Job> = match at {
                    Some(k) => {
                        assert(store@.jobs[k as int] == store.jobs@[k as int]@);
                        Some(&store.jobs[k])
                    },
                    None => None,
                };
                let row = make_entry_row(store, entry, fact, local);
                let group = view_group(&row.view.job, &i.retry_of);
                let merged = join(rows.get(&group), row);
                rows.put(group, merged);
            }
        }
        n += 1;
    }
}

pub open spec fn unsaved_warning() -> Seq<char> {
    "Local outcome is uncertain and has not been saved; the signed observations below remain the last durable evidence. Repair storage and restart the sidecar."@
}

/// A failed completion save must not make a dead local process appear to
/// remain running merely because that is the latest durable signed fact.
pub open spec fn warned_rows(s: StoreModel, id: Option<Seq<char>>, n: int) -> Seq<
    (Seq<char>, RowModel),
>
    decreases n,
{
    if n <= 0 {
        entry_rows(s, id, s.history.entries.len() as int)
    } else {
        let rows = warned_rows(s, id, n - 1);
        let job = s.jobs[n - 1];
        let group = group_of(job, table::lookup(s.retry_links, job.id));
        let row = table::lookup(rows, group);
        if wanted(id, job.id) && job.body == s.body_name && job.status is Uncertain && row is Some
            && row->0.view.job.status != job.status {
            table::stored(
                rows,
                group,
                RowModel {
                    view: JobViewModel {
                        job: JobModel { status: job.status, ..row->0.view.job },
                        local_warning: Some(unsaved_warning()),
                        ..row->0.view
                    },
                    ..row->0
                },
            )
        } else {
            rows
        }
    }
}

fn warn_rows(store: &Store, id: Option<&str>, rows: &mut Table<Row>)
    requires
        old(rows).deep_view() == entry_rows(
            store@,
            optional_text(id),
            store@.history.entries.len() as int,
        ),
    ensures
        final(rows).deep_view() == warned_rows(
            store@,
            optional_text(id),
            store@.jobs.len() as int,
        ),
{
    let mut n: usize = 0;
    while n < store.jobs.len()
        invariant
            n <= store.jobs.len(),
            rows.deep_view() == warned_rows(store@, optional_text(id), n as int),
        decreases store.jobs.len() - n,
    {
        let job = &store.jobs[n];
        assert(store@.jobs[n as int] == job@);
        let uncertain: bool = match &job.status {
            JobStatus::Uncertain { .. } => true,
            _ => false,
        };
        if uncertain && is_wanted(id, &job.id) && job.body.0.same(&store.body_name) {
            let retry_of = retry_link(store, &job.id);
            let group = view_group(job, &retry_of);
            let changed: Option<Row> = match rows.get(&group) {
                Some(row) => if row.view.job.status.same(&job.status) {
                    None
                } else {
                    let mut next = row.dup();
                    next.view.job.status = job.status.dup();
                    next.view.local_warning = Some(
                        owned(
                            "Local outcome is uncertain and has not been saved; the signed observations below remain the last durable evidence. Repair storage and restart the sidecar.",
                        ),
                    );
                    Some(next)
                },
                None => None,
            };
            if let Some(next) = changed {
                rows.put(group, next);
            }
        }
        n += 1;
    }
}

/// This machine's selected entry sequence is display order only. An
/// unpublished local record falls back to its admission index.
pub open spec fn sequence_of(s: StoreModel, view: JobViewModel) -> u64 {
    let entry = match view.invocation {
        Some(key) => table::lookup(s.history.entries, key),
        None => None,
    };
    match entry {
        Some(e) => e.change,
        None => match publish::last_at(s.jobs, view.job.id) {
            Some(at) => at as u64,
            None => 0,
        },
    }
}

pub open spec fn seen_row(s: StoreModel, row: RowModel) -> SeenModel {
    SeenModel {
        sequence: sequence_of(s, row.view),
        view: JobViewModel {
            observations: order::sorted(row.view.observations, order::rank_order::<Observation>()),
            ..row.view
        },
    }
}

pub open spec fn seen_rows(s: StoreModel, rows: Seq<(Seq<char>, RowModel)>) -> Seq<SeenModel> {
    Seq::new(rows.len(), |i: int| seen_row(s, rows[i].1))
}

/// Every wanted job once, by its best evidence, in the order of what this
/// machine observed.
pub open spec fn projection(s: StoreModel, id: Option<Seq<char>>) -> Seq<JobViewModel> {
    let rows = warned_rows(s, id, s.jobs.len() as int);
    let ordered = order::sorted(seen_rows(s, rows), order::rank_order::<Seen>());
    Seq::new(ordered.len(), |i: int| ordered[i].view)
}

fn find_sequence(store: &Store, view: &JobView) -> (sequence: u64)
    ensures
        sequence == sequence_of(store@, view@),
{
    if let Some(key) = &view.invocation {
        if let Some(entry) = store.history.entries.get(key) {
            return entry.change;
        }
    }
    match local_index(store, &view.job.id) {
        Some(at) => at as u64,
        None => 0,
    }
}

fn projected_views(store: &Store, id: Option<&str>) -> (shown: Vec<JobView>)
    ensures
        shown.deep_view() == projection(store@, optional_text(id)),
{
    let mut rows = rows_from_jobs(store, id);
    add_entry_rows(store, id, &mut rows);
    warn_rows(store, id, &mut rows);
    let ghost table = rows.deep_view();
    let ghost goal = seen_rows(store@, table);
    let mut seen: Vec<Seen> = Vec::new();
    let mut i: usize = 0;
    assert(seen.deep_view() =~= goal.take(0));
    while i < rows.len()
        invariant
            i <= table.len(),
            table == rows.deep_view(),
            goal == seen_rows(store@, table),
            seen.deep_view() == goal.take(i as int),
        decreases table.len() - i,
    {
        let mut view = rows.value_at(i).view.dup();
        let observations = sort(view.observations);
        view.observations = observations;
        let sequence: u64 = find_sequence(store, &view);
        let ghost before = seen.deep_view();
        let item = Seen { sequence, view };
        assert(item@ == goal[i as int]);
        seen.push(item);
        proof {
            assert(seen.deep_view() =~= before.push(goal[i as int]));
            assert(goal.take(i + 1) =~= goal.take(i as int).push(goal[i as int]));
        }
        i += 1;
    }
    assert(goal.take(i as int) =~= goal);
    let ordered = sort(seen);
    let ghost order = ordered.deep_view();
    let mut shown: Vec<JobView> = Vec::new();
    let mut k: usize = 0;
    while k < ordered.len()
        invariant
            k <= ordered.len(),
            order == ordered.deep_view(),
            shown.len() == k,
            forall|j: int| 0 <= j < k ==> (#[trigger] shown@[j])@ == order[j].view,
        decreases ordered.len() - k,
    {
        assert(order[k as int] == ordered@[k as int]@);
        shown.push(ordered[k].view.dup());
        k += 1;
    }
    assert(shown.deep_view() =~= projection(store@, optional_text(id)));
    shown
}

pub fn views(store: &Store) -> (shown: Vec<JobView>)
    ensures
        shown.deep_view() == projection(store@, None),
{
    projected_views(store, None)
}

pub fn views_for_job(store: &Store, id: &str) -> (shown: Vec<JobView>)
    ensures
        shown.deep_view() == projection(store@, Some(id@)),
{
    projected_views(store, Some(id))
}

/// The jobs of the projection.
pub fn projected(store: &Store) -> (jobs: Vec<Job>)
    ensures
        jobs.deep_view() == Seq::new(
            projection(store@, None).len(),
            |i: int| projection(store@, None)[i].job,
        ),
{
    let shown = views(store);
    let ghost all = shown.deep_view();
    let mut jobs: Vec<Job> = Vec::new();
    let mut i: usize = 0;
    while i < shown.len()
        invariant
            i <= shown.len(),
            all == shown.deep_view(),
            jobs.len() == i,
            forall|j: int| 0 <= j < i ==> (#[trigger] jobs@[j])@ == all[j].job,
        decreases shown.len() - i,
    {
        assert(all[i as int] == shown@[i as int]@);
        jobs.push(shown[i].job.dup());
        i += 1;
    }
    assert(jobs.deep_view() =~= Seq::new(all.len(), |k: int| all[k].job));
    jobs
}

} // verus!
