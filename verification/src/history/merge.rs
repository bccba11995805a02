//! Taking in what other machines signed, and handing out what this one holds.

use vstd::prelude::*;

use crate::data::{bytes_dup, Data};
use crate::error;
use crate::error::{protocol, ErrorModel, Outcome, Result};
use crate::history::publish;
use crate::history::publish::{matches_job, next_change, output_matches};
use crate::history::record::{
    CapturedOutput, CapturedOutputModel, Certificate, CertificateModel, Entry, EntryModel,
    HistoryModel, OutputRef, Published, PublishedModel, Record, RecordModel, SignedFact,
    SignedFactModel,
};
use crate::history::wire;
use crate::history::wire::{key_of, validate_record};
use crate::job;
use crate::job::{find_job, is_terminal};
use crate::search;
use crate::store::{Store, StoreModel};
use crate::table;
use crate::text::bytes_same;
use crate::types::{BodyId, Job, JobModel};

verus! {

/// A certificate bound to a local job at admission.
pub open spec fn admitted(s: StoreModel, c: CertificateModel) -> (StoreModel, Outcome<()>) {
    let key = wire::invocation_key(c);
    let id = c.invocation.id;
    let earlier = table::lookup(s.job_certificates, id);
    if earlier is Some && earlier->0 != key {
        (s, Err(ErrorModel::Protocol("job ID is already bound to a different invocation"@)))
    } else if earlier is None && search::first(s.jobs, job::job_with_id(id)) is Some {
        (s, Err(ErrorModel::Protocol("job ID belongs to an earlier unsigned admission"@)))
    } else if !table::holds(s.history.entries, key) && s.history.clock == u64::MAX {
        (s, Err(publish::exhausted()))
    } else {
        let history = if table::holds(s.history.entries, key) {
            s.history
        } else {
            HistoryModel {
                entries: table::stored(
                    s.history.entries,
                    key,
                    publish::bare_entry(c, (s.history.clock + 1) as u64),
                ),
                ..publish::ticked(s.history)
            }
        };
        let retry_links = match c.invocation.retry_of {
            Some(old) => table::stored(s.retry_links, id, old),
            None => s.retry_links,
        };
        (
            StoreModel {
                history,
                job_certificates: table::stored(s.job_certificates, id, key),
                retry_links,
                ..s
            },
            Ok(()),
        )
    }
}

/// Only execution admission may bind a certificate to a local job. A history
/// import, even with a valid origin signature, never calls this function.
pub fn bind_admission(store: &mut Store, c: &Certificate) -> (result: Result<()>)
    ensures
        (final(store)@, error::outcome(result)) == admitted(old(store)@, c@),
{
    let key = key_of(c);
    let id = &c.invocation.id;
    match store.job_certificates.get(id) {
        Some(old) => {
            if !old.same(&key) {
                return Err(protocol("job ID is already bound to a different invocation"));
            }
        },
        None => {
            if find_job(&store.jobs, id).is_some() {
                return Err(protocol("job ID belongs to an earlier unsigned admission"));
            }
        },
    }
    if !store.history.entries.has(&key) {
        let change: u64 = match next_change(&mut store.history) {
            Ok(change) => change,
            Err(e) => return Err(e),
        };
        let entry = Entry {
            record: Record { certificate: c.dup(), origin: None, runner: None },
            change,
            output: None,
        };
        store.history.entries.put(key.dup(), entry);
    }
    store.job_certificates.put(id.dup(), key);
    if let Some(old) = &c.invocation.retry_of {
        store.retry_links.put(id.dup(), old.dup());
    }
    Ok(())
}

/// The job is admitted under that key and its output was not pruned.
pub open spec fn owns_output(s: StoreModel, c: CertificateModel, key: Seq<char>, j: JobModel) -> bool {
    table::lookup(s.job_certificates, j.id) == Some(key) && publish::speaks_of(c, j) && !table::holds(
        s.output_pruned,
        j.id,
    )
}

/// A job's output is what a fact describes.
pub open spec fn job_captured(j: JobModel, fact: SignedFactModel) -> bool {
    wire::output_ref(j.stdout) == fact.fact.stdout && wire::output_ref(j.stderr) == fact.fact.stderr
}

fn has_output(store: &Store, c: &Certificate, key: &String, job: &Job) -> (yes: bool)
    ensures
        yes == owns_output(store@, c@, key@, job@),
{
    match store.job_certificates.get(&job.id) {
        Some(bound) => bound.same(key) && matches_job(c, job) && !store.output_pruned.has(
            &job.id,
        ),
        None => false,
    }
}

fn describes(job: &Job, fact: &SignedFact) -> (yes: bool)
    ensures
        yes == job_captured(job@, fact@),
{
    OutputRef::of(&job.stdout).same(&fact.fact.stdout) && OutputRef::of(&job.stderr).same(
        &fact.fact.stderr,
    )
}

/// The bytes of an entry's selected fact, where this machine holds them: in the
/// admitted job, else in the entry. What was pruned is not given out.
pub open spec fn selected_output(s: StoreModel, entry: EntryModel, local: Option<JobModel>) -> Option<
    CapturedOutputModel,
> {
    let key = wire::invocation_key(entry.record.certificate);
    match entry.record.selected() {
        None => None,
        Some(fact) => if table::holds(s.history_pruned, key) {
            None
        } else if local is Some && owns_output(s, entry.record.certificate, key, local->0)
            && job_captured(local->0, fact) {
            Some(CapturedOutputModel { stdout: local->0.stdout, stderr: local->0.stderr })
        } else if entry.output is Some && publish::captured(entry.output->0, fact.fact) {
            entry.output
        } else {
            None
        },
    }
}

pub fn take_output(store: &Store, entry: &Entry, local: Option<&Job>) -> (output: Option<
    CapturedOutput,
>)
    ensures
        output.deep_view() == selected_output(
            store@,
            entry@,
            match local {
                Some(job) => Some(job@),
                None => None,
            },
        ),
{
    let selected = match entry.record.selected() {
        Some(fact) => fact,
        None => return None,
    };
    let key = key_of(&entry.record.certificate);
    if store.history_pruned.has(&key) {
        return None;
    }
    if let Some(job) = local {
        if has_output(store, &entry.record.certificate, &key, job) && describes(job, selected) {
            return Some(
                CapturedOutput { stdout: bytes_dup(&job.stdout), stderr: bytes_dup(&job.stderr) },
            );
        }
    }
    match &entry.output {
        Some(output) => if output_matches(output, &selected.fact) {
            Some(output.dup())
        } else {
            None
        },
        None => None,
    }
}

/// An entry as it is published.
pub open spec fn exported(s: StoreModel, entry: EntryModel) -> PublishedModel {
    PublishedModel {
        record: entry.record,
        output: selected_output(
            s,
            entry,
            search::found(s.jobs, job::job_with_id(entry.record.certificate.invocation.id)),
        ),
        change: entry.change,
    }
}

pub fn export_entry(store: &Store, entry: &Entry) -> (published: Published)
    ensures
        published@ == exported(store@, entry@),
{
    let id = &entry.record.certificate.invocation.id;
    let at = find_job(&store.jobs, id);
    let output = match at {
        Some(i) => {
            assert(store@.jobs[i as int] == store.jobs@[i as int]@);
            take_output(store, entry, Some(&store.jobs[i]))
        },
        None => take_output(store, entry, None),
    };
    Published { record: entry.record.dup(), output, change: entry.change }
}

/// The modern history entry of an admitted job.
pub open spec fn entry_for(s: StoreModel, job: JobModel) -> Option<EntryModel> {
    match table::lookup(s.job_certificates, job.id) {
        None => None,
        Some(key) => match table::lookup(s.history.entries, key) {
            None => None,
            Some(entry) => if entry.record.certificate.invocation.legacy_observer is None
                && publish::speaks_of(entry.record.certificate, job) {
                Some(entry)
            } else {
                None
            },
        },
    }
}

pub fn for_job<'a>(store: &'a Store, job: &Job) -> (entry: Option<&'a Entry>)
    ensures
        (match entry {
            Some(e) => entry_for(store@, job@) == Some(e@),
            None => entry_for(store@, job@) is None,
        }),
{
    let key = match store.job_certificates.get(&job.id) {
        Some(key) => key,
        None => return None,
    };
    match store.history.entries.get(key) {
        Some(entry) => if entry.record.certificate.invocation.legacy_observer.is_none()
            && matches_job(&entry.record.certificate, job) {
            Some(entry)
        } else {
            None
        },
        None => None,
    }
}

/// What this machine answers about an invocation it was asked to run: nothing
/// yet, or the admitted job with its signed history.
pub open spec fn reply_outcome(s: StoreModel, c: CertificateModel) -> Outcome<
    Option<(JobModel, PublishedModel)>,
> {
    let key = wire::invocation_key(c);
    match search::found(s.jobs, job::job_with_id(c.invocation.id)) {
        None => Ok(None),
        Some(job) => if !publish::speaks_of(c, job) || table::lookup(s.job_certificates, job.id) != Some(key) {
            Err(ErrorModel::Protocol("job ID is bound to a different admitted invocation"@))
        } else {
            match table::lookup(s.history.entries, key) {
                None => Err(ErrorModel::Protocol("admission is missing history"@)),
                Some(entry) => Ok(Some((job, exported(s, entry)))),
            }
        },
    }
}

pub fn execution_reply(store: &Store, c: &Certificate) -> (result: Result<
    Option<(Job, Published)>,
>)
    ensures
        error::outcome(result) == reply_outcome(store@, c@),
{
    let key = key_of(c);
    let at: usize = match find_job(&store.jobs, &c.invocation.id) {
        Some(i) => i,
        None => return Ok(None),
    };
    assert(store@.jobs[at as int] == store.jobs@[at as int]@);
    let job = &store.jobs[at];
    let bound: bool = match store.job_certificates.get(&job.id) {
        Some(k) => k.same(&key),
        None => false,
    };
    if !matches_job(c, job) || !bound {
        return Err(protocol("job ID is bound to a different admitted invocation"));
    }
    match store.history.entries.get(&key) {
        Some(entry) => Ok(Some((job.dup(), export_entry(store, entry)))),
        None => Err(protocol("admission is missing history")),
    }
}

/// One author's fact after another fact of the same author arrives, and whether
/// it changed. Later revisions win until a terminal one; nothing rewrites that.
pub open spec fn merged_fact(
    existing: Option<SignedFactModel>,
    incoming: Option<SignedFactModel>,
) -> Outcome<(Option<SignedFactModel>, bool)> {
    match (existing, incoming) {
        (_, None) => Ok((existing, false)),
        (None, Some(_)) => Ok((incoming, true)),
        (Some(current), Some(arriving)) => if arriving.fact.revision < current.fact.revision {
            Ok((existing, false))
        } else if arriving.fact.revision == current.fact.revision {
            if arriving != current {
                Err(ErrorModel::Protocol("conflicting history facts at the same revision"@))
            } else {
                Ok((existing, false))
            }
        } else if job::terminal(current.fact.status) {
            Err(ErrorModel::Protocol("history cannot rewrite a terminal fact"@))
        } else {
            Ok((incoming, true))
        },
    }
}

pub fn merge_fact(existing: &mut Option<SignedFact>, incoming: &Option<SignedFact>) -> (result:
    Result<bool>)
    ensures
        (match merged_fact(old(existing).deep_view(), incoming.deep_view()) {
            Ok((fact, changed)) => final(existing).deep_view() == fact && error::outcome(result) == Ok::<
                bool,
                ErrorModel,
            >(changed),
            Err(e) => final(existing).deep_view() == old(existing).deep_view() && error::outcome(result)
                == Err::<bool, ErrorModel>(e),
        }),
{
    let arriving = match incoming {
        Some(fact) => fact,
        None => return Ok(false),
    };
    if let Some(current) = existing.as_ref() {
        if arriving.fact.revision < current.fact.revision {
            return Ok(false);
        }
        if arriving.fact.revision == current.fact.revision {
            if !arriving.same(current) {
                return Err(protocol("conflicting history facts at the same revision"));
            }
            return Ok(false);
        }
        if is_terminal(&current.fact.status) {
            return Err(protocol("history cannot rewrite a terminal fact"));
        }
    }
    *existing = Some(arriving.dup());
    Ok(true)
}

/// Some admitted job already holds the bytes of a fact.
pub open spec fn held_locally(s: StoreModel, c: CertificateModel, fact: SignedFactModel) -> bool {
    exists|i: int|
        0 <= i < s.jobs.len() && owns_output(s, c, wire::invocation_key(c), #[trigger] s.jobs[i])
            && job_captured(s.jobs[i], fact)
}

fn is_held_locally(store: &Store, c: &Certificate, key: &String, fact: &SignedFact) -> (yes: bool)
    requires
        key@ == wire::invocation_key(c@),
    ensures
        yes == held_locally(store@, c@, fact@),
{
    let ghost jobs = store@.jobs;
    let mut i: usize = 0;
    while i < store.jobs.len()
        invariant
            i <= store.jobs.len(),
            jobs == store@.jobs,
            key@ == wire::invocation_key(c@),
            forall|j: int|
                0 <= j < i ==> !(owns_output(store@, c@, wire::invocation_key(c@), #[trigger] jobs[j])
                    && job_captured(jobs[j], fact@)),
        decreases store.jobs.len() - i,
    {
        assert(jobs[i as int] == store.jobs@[i as int]@);
        if has_output(store, c, key, &store.jobs[i]) && describes(&store.jobs[i], fact) {
            assert(owns_output(store@, c@, wire::invocation_key(c@), store@.jobs[i as int]));
            return true;
        }
        i += 1;
    }
    false
}

/// The payload an entry keeps after a merge, and whether that is a change.
pub open spec fn merged_output(
    s: StoreModel,
    record: RecordModel,
    kept: Option<CapturedOutputModel>,
    offered: Option<CapturedOutputModel>,
) -> (Option<CapturedOutputModel>, bool) {
    match record.selected() {
        None => (kept, false),
        Some(fact) => if held_locally(s, record.certificate, fact) {
            (None, false)
        } else {
            let key = wire::invocation_key(record.certificate);
            let take = offered is Some && !table::holds(s.history_pruned, key) && publish::captured(
                offered->0,
                fact.fact,
            ) && kept != offered;
            let output = if take {
                offered
            } else {
                kept
            };
            if output is Some && !publish::captured(output->0, fact.fact) {
                (None, true)
            } else {
                (output, take)
            }
        },
    }
}

fn merge_output(
    store: &Store,
    record: &Record,
    kept: Option<CapturedOutput>,
    offered: &Option<CapturedOutput>,
) -> (merged: (Option<CapturedOutput>, bool))
    ensures
        (merged.0.deep_view(), merged.1) == merged_output(
            store@,
            record@,
            kept.deep_view(),
            offered.deep_view(),
        ),
{
    let fact = match record.selected() {
        Some(fact) => fact,
        None => return (kept, false),
    };
    let key = key_of(&record.certificate);
    if is_held_locally(store, &record.certificate, &key, fact) {
        return (None, false);
    }
    let mut output = kept;
    let mut changed: bool = false;
    if let Some(new) = offered {
        if !store.history_pruned.has(&key) && output_matches(new, &fact.fact) {
            let already: bool = match &output {
                Some(old) => old.same(new),
                None => false,
            };
            if !already {
                output = Some(new.dup());
                changed = true;
            }
        }
    }
    let stale: bool = match &output {
        Some(o) => !output_matches(o, &fact.fact),
        None => false,
    };
    if stale {
        return (None, true);
    }
    (output, changed)
}

/// An output that arrives must be what its record's fact describes.
pub open spec fn offered_outcome(p: PublishedModel) -> Outcome<()> {
    match p.output {
        None => Ok(()),
        Some(output) => match p.record.selected() {
            None => Err(ErrorModel::Protocol("output has no history fact"@)),
            Some(fact) => if publish::captured(output, fact.fact) {
                Ok(())
            } else {
                Err(ErrorModel::Protocol("history output differs from its signed digest"@))
            },
        },
    }
}

/// The entry that a published record merges into.
pub open spec fn base_entry(s: StoreModel, c: CertificateModel) -> EntryModel {
    match table::lookup(s.history.entries, wire::invocation_key(c)) {
        Some(entry) => entry,
        None => publish::bare_entry(c, 0),
    }
}

/// The record after its facts are merged, and whether any of them changed.
pub open spec fn merged_record(base: RecordModel, incoming: RecordModel) -> Outcome<
    (RecordModel, bool),
> {
    if base.certificate != incoming.certificate {
        Err(ErrorModel::Protocol("different certificate for the same invocation"@))
    } else {
        match merged_fact(base.origin, incoming.origin) {
            Err(e) => Err(e),
            Ok((origin, a)) => match merged_fact(base.runner, incoming.runner) {
                Err(e) => Err(e),
                Ok((runner, b)) => Ok(
                    (RecordModel { certificate: base.certificate, origin, runner }, a || b),
                ),
            },
        }
    }
}

/// History with a valid record merged in, and whether that changed anything.
pub open spec fn ingested(s: StoreModel, p: PublishedModel) -> (StoreModel, Outcome<bool>) {
    let key = wire::invocation_key(p.record.certificate);
    if wire::validate_record_outcome(s, p.record) is Err {
        (s, Err(wire::validate_record_outcome(s, p.record)->Err_0))
    } else if offered_outcome(p) is Err {
        (s, Err(offered_outcome(p)->Err_0))
    } else {
        let base = base_entry(s, p.record.certificate);
        match merged_record(base.record, p.record) {
            Err(e) => (s, Err(e)),
            Ok((record, facts)) => {
                let (output, payload) = merged_output(s, record, base.output, p.output);
                if !(facts || payload || !table::holds(s.history.entries, key)) {
                    (s, Ok(false))
                } else if s.history.clock == u64::MAX {
                    (s, Err(publish::exhausted()))
                } else {
                    let change = (s.history.clock + 1) as u64;
                    (
                        StoreModel {
                            history: HistoryModel {
                                entries: table::stored(
                                    s.history.entries,
                                    key,
                                    EntryModel { record, change, output },
                                ),
                                ..publish::ticked(s.history)
                            },
                            ..s
                        },
                        Ok(true),
                    )
                }
            },
        }
    }
}

/// Validate then merge a record. Caller durably commits it with the page cursor.
/// This function never changes jobs, grants, requests or pairing.
pub fn ingest(store: &mut Store, published: &Published) -> (result: Result<bool>)
    ensures
        (final(store)@, error::outcome(result)) == ingested(old(store)@, published@),
{
    if let Err(e) = validate_record(store, &published.record) {
        return Err(e);
    }
    if let Some(output) = &published.output {
        match published.record.selected() {
            Some(fact) => {
                if !output_matches(output, &fact.fact) {
                    return Err(protocol("history output differs from its signed digest"));
                }
            },
            None => return Err(protocol("output has no history fact")),
        }
    }
    let key = key_of(&published.record.certificate);
    let known: bool = store.history.entries.has(&key);
    let mut entry = match store.history.entries.get(&key) {
        Some(entry) => entry.dup(),
        None => Entry {
            record: Record {
                certificate: published.record.certificate.dup(),
                origin: None,
                runner: None,
            },
            change: 0,
            output: None,
        },
    };
    assert(entry@ == base_entry(store@, published@.record.certificate));
    if !entry.record.certificate.same(&published.record.certificate) {
        return Err(protocol("different certificate for the same invocation"));
    }
    let origin: bool = match merge_fact(&mut entry.record.origin, &published.record.origin) {
        Ok(changed) => changed,
        Err(e) => return Err(e),
    };
    let runner: bool = match merge_fact(&mut entry.record.runner, &published.record.runner) {
        Ok(changed) => changed,
        Err(e) => return Err(e),
    };
    let Entry { record, change: _, output: kept } = entry;
    let (output, payload) = merge_output(store, &record, kept, &published.output);
    if !(origin || runner || payload || !known) {
        return Ok(false);
    }
    let change: u64 = match next_change(&mut store.history) {
        Ok(change) => change,
        Err(e) => return Err(e),
    };
    store.history.entries.put(key, Entry { record, change, output });
    Ok(true)
}

/// What the origin makes of a runner's answer.
pub open spec fn answered(s: StoreModel, peer: Seq<char>, p: PublishedModel) -> (
    StoreModel,
    Outcome<Option<JobModel>>,
) {
    let c = p.record.certificate;
    let i = c.invocation;
    let key = wire::invocation_key(c);
    let at = search::first(s.jobs, job::job_with_id(i.id));
    if wire::validate_record_outcome(s, p.record) is Err {
        (s, Err(wire::validate_record_outcome(s, p.record)->Err_0))
    } else if i.legacy_observer is Some || i.body != peer {
        (s, Err(ErrorModel::Protocol("response has no modern runner authority"@)))
    } else if p.record.runner is None {
        (s, Err(ErrorModel::Protocol("runner response is missing its signed result"@)))
    } else if at is None {
        (s, Ok(None))
    } else if table::lookup(s.job_certificates, i.id) != Some(key) || !publish::speaks_of(c, s.jobs[at->0]) {
        (s, Err(ErrorModel::Protocol("runner result belongs to a different admission"@)))
    } else {
        let (merged, step) = ingested(s, p);
        match step {
            Err(e) => (merged, Err(e)),
            Ok(_) => if job::terminal(s.jobs[at->0].status) {
                (merged, Ok(None))
            } else {
                let fact = p.record.runner->0.fact;
                let pruned = table::holds(s.history_pruned, key) || table::holds(s.output_pruned, i.id);
                let retained = if pruned {
                    None
                } else {
                    p.output
                };
                let incoming = JobModel {
                    id: i.id,
                    from: i.from,
                    body: i.body,
                    argv: i.argv,
                    status: fact.status,
                    stdout: match retained {
                        Some(o) => o.stdout,
                        None => Seq::empty(),
                    },
                    stderr: match retained {
                        Some(o) => o.stderr,
                        None => Seq::empty(),
                    },
                };
                let output_pruned = if retained is None && (fact.stdout.bytes != 0
                    || fact.stderr.bytes != 0) {
                    table::stored(s.output_pruned, i.id, ())
                } else {
                    s.output_pruned
                };
                (
                    StoreModel {
                        jobs: s.jobs.update(at->0, incoming),
                        output_pruned,
                        ..merged
                    },
                    Ok(Some(incoming)),
                )
            },
        }
    }
}

pub fn accept_runner_reply(store: &mut Store, peer: &BodyId, published: &Published) -> (result:
    Result<Option<Job>>)
    ensures
        (final(store)@, error::outcome(result)) == answered(old(store)@, peer@, published@),
{
    if let Err(e) = validate_record(store, &published.record) {
        return Err(e);
    }
    let c = &published.record.certificate;
    let i = &c.invocation;
    let key = key_of(c);
    if i.legacy_observer.is_some() || !i.body.same(peer) {
        return Err(protocol("response has no modern runner authority"));
    }
    let signed = match &published.record.runner {
        Some(signed) => signed,
        None => return Err(protocol("runner response is missing its signed result")),
    };
    let at: usize = match find_job(&store.jobs, &i.id) {
        Some(at) => at,
        None => return Ok(None),
    };
    let ghost start = store@;
    assert(start.jobs[at as int] == store.jobs@[at as int]@);
    let bound: bool = match store.job_certificates.get(&i.id) {
        Some(k) => k.same(&key),
        None => false,
    };
    if !bound || !matches_job(c, &store.jobs[at]) {
        return Err(protocol("runner result belongs to a different admission"));
    }
    if let Err(e) = ingest(store, published) {
        return Err(e);
    }
    assert(store@.jobs == start.jobs);
    assert(store@.jobs[at as int] == store.jobs@[at as int]@);
    // An earlier delivery error remains an origin observation. Replicated
    // runner facts can settle the displayed result without restarting delivery.
    if is_terminal(&store.jobs[at].status) {
        return Ok(None);
    }
    let pruned: bool = store.history_pruned.has(&key) || store.output_pruned.has(&i.id);
    let mut stdout: Vec<u8> = Vec::new();
    let mut stderr: Vec<u8> = Vec::new();
    let mut retained: bool = false;
    if let Some(output) = &published.output {
        if !pruned {
            stdout = bytes_dup(&output.stdout);
            stderr = bytes_dup(&output.stderr);
            retained = true;
        }
    }
    if !retained && (signed.fact.stdout.bytes != 0 || signed.fact.stderr.bytes != 0) {
        store.output_pruned.put(i.id.dup(), ());
    }
    let incoming = Job {
        id: i.id.dup(),
        from: i.from.dup(),
        body: i.body.dup(),
        argv: i.argv.dup(),
        status: signed.fact.status.dup(),
        stdout,
        stderr,
    };
    let ghost jobs = store.jobs@;
    let ghost kept = incoming@;
    let answer = incoming.dup();
    store.jobs[at] = incoming;
    assert(store.jobs.deep_view() =~= start.jobs.update(at as int, kept));
    Ok(Some(answer))
}

/// Entries without the payloads that were pruned.
pub open spec fn unloaded(
    entries: Seq<(Seq<char>, EntryModel)>,
    pruned: Seq<(Seq<char>, ())>,
) -> Seq<(Seq<char>, EntryModel)> {
    Seq::new(
        entries.len(),
        |i: int|
            (
                entries[i].0,
                if table::holds(pruned, entries[i].0) {
                    EntryModel { output: None, ..entries[i].1 }
                } else {
                    entries[i].1
                },
            ),
    )
}

fn unload(store: &mut Store)
    ensures
        final(store)@ == (StoreModel {
            history: HistoryModel {
                entries: unloaded(old(store)@.history.entries, old(store)@.history_pruned),
                ..old(store)@.history
            },
            ..old(store)@
        }),
{
    let ghost start = store@;
    let ghost goal = unloaded(start.history.entries, start.history_pruned);
    let mut i: usize = 0;
    assert(start.history.entries =~= goal.take(0) + start.history.entries.skip(0));
    while i < store.history.entries.len()
        invariant
            i <= store@.history.entries.len(),
            store@.history.entries.len() == start.history.entries.len(),
            goal == unloaded(start.history.entries, start.history_pruned),
            store@ == (StoreModel {
                history: HistoryModel { entries: store@.history.entries, ..start.history },
                ..start
            }),
            store@.history.entries == goal.take(i as int) + start.history.entries.skip(i as int),
        decreases store@.history.entries.len() - i,
    {
        let ghost here = store@.history.entries;
        assert(here[i as int] == start.history.entries[i as int]);
        if store.history_pruned.has(store.history.entries.key_at(i)) {
            let mut entry = store.history.entries.value_at(i).dup();
            entry.output = None;
            store.history.entries.set_at(i, entry);
        }
        proof {
            assert(store@.history.entries =~= goal.take(i + 1) + start.history.entries.skip(i + 1));
        }
        i += 1;
    }
    assert(store@.history.entries =~= goal);
}

/// A job and its entry, agreeing on who keeps the bytes and what was pruned.
pub open spec fn normalized_job(s: StoreModel, at: int) -> StoreModel {
    let job = s.jobs[at];
    match table::lookup(s.job_certificates, job.id) {
        None => s,
        Some(key) => match table::lookup(s.history.entries, key) {
            None => s,
            Some(entry) => if !publish::speaks_of(entry.record.certificate, job) {
                s
            } else if table::holds(s.history_pruned, key) {
                let selected = entry.record.selected();
                let recorded = selected is Some && (selected->0.fact.stdout.bytes != 0
                    || selected->0.fact.stderr.bytes != 0);
                StoreModel {
                    jobs: s.jobs.update(
                        at,
                        JobModel { stdout: Seq::empty(), stderr: Seq::empty(), ..job },
                    ),
                    output_pruned: if recorded {
                        table::stored(s.output_pruned, job.id, ())
                    } else {
                        s.output_pruned
                    },
                    ..s
                }
            } else if !table::holds(s.output_pruned, job.id) && entry.output == Some(
                CapturedOutputModel { stdout: job.stdout, stderr: job.stderr },
            ) {
                StoreModel {
                    history: HistoryModel {
                        entries: table::stored(
                            s.history.entries,
                            key,
                            EntryModel { output: None, ..entry },
                        ),
                        ..s.history
                    },
                    ..s
                }
            } else {
                s
            },
        },
    }
}

/// The jobs from `i` on, normalized in order.
pub open spec fn normalized_from(s: StoreModel, i: int) -> StoreModel
    decreases s.jobs.len() - i,
{
    if i >= s.jobs.len() {
        s
    } else {
        let next = normalized_job(s, i);
        if next.jobs.len() == s.jobs.len() {
            normalized_from(next, i + 1)
        } else {
            s
        }
    }
}

pub open spec fn normalized(s: StoreModel) -> StoreModel {
    normalized_from(
        StoreModel {
            history: HistoryModel {
                entries: unloaded(s.history.entries, s.history_pruned),
                ..s.history
            },
            ..s
        },
        0,
    )
}

fn normalize_job(store: &mut Store, at: usize)
    requires
        at < old(store)@.jobs.len(),
    ensures
        final(store)@ == normalized_job(old(store)@, at as int),
        final(store)@.jobs.len() == old(store)@.jobs.len(),
{
    let ghost start = store@;
    assert(start.jobs[at as int] == store.jobs@[at as int]@);
    let key = match store.job_certificates.get(&store.jobs[at].id) {
        Some(key) => key.dup(),
        None => return ,
    };
    let entry = match store.history.entries.get(&key) {
        Some(entry) => entry,
        None => return ,
    };
    if !matches_job(&entry.record.certificate, &store.jobs[at]) {
        return ;
    }
    if store.history_pruned.has(&key) {
        let recorded: bool = match entry.record.selected() {
            Some(f) => f.fact.stdout.bytes != 0 || f.fact.stderr.bytes != 0,
            None => false,
        };
        let mut job = store.jobs[at].dup();
        job.stdout = Vec::new();
        job.stderr = Vec::new();
        if recorded {
            store.output_pruned.put(job.id.dup(), ());
        }
        let ghost kept = job@;
        store.jobs[at] = job;
        assert(store.jobs.deep_view() =~= start.jobs.update(at as int, kept));
        assert(kept.stdout =~= Seq::empty() && kept.stderr =~= Seq::empty());
        return ;
    }
    if store.output_pruned.has(&store.jobs[at].id) {
        return ;
    }
    let twice: bool = match &entry.output {
        Some(o) => bytes_same(&o.stdout, &store.jobs[at].stdout) && bytes_same(
            &o.stderr,
            &store.jobs[at].stderr,
        ),
        None => false,
    };
    if twice {
        let mut next = entry.dup();
        next.output = None;
        store.history.entries.put(key, next);
    }
}

/// Keep each output once, and none that the owner pruned.
pub fn normalize_output(store: &mut Store)
    ensures
        final(store)@ == normalized(old(store)@),
{
    unload(store);
    let ghost ready = store@;
    let mut i: usize = 0;
    while i < store.jobs.len()
        invariant
            i <= store@.jobs.len(),
            normalized_from(ready, 0) == normalized_from(store@, i as int),
        decreases store@.jobs.len() - i,
    {
        assert(store@.jobs.len() == store.jobs@.len());
        normalize_job(store, i);
        i += 1;
    }
}

} // verus!
