//! Signed history, read off the records themselves: who must have signed what, what
//! a record that arrives leaves behind, and what this machine says of its own jobs.

use vstd::prelude::*;

use crate::crypto;
use crate::error::{ErrorModel, Outcome};
use crate::history::merge;
use crate::history::page;
use crate::history::publish;
use crate::history::sync;
use crate::history::sync::{PageAskModel, PageTakenModel};
use crate::history::wire;
use crate::history::{
    CapturedOutputModel, CertificateModel, EntryModel, FactModel, PageModel, ProgressModel,
    PublishedModel, RecordModel, Role, SignedFactModel,
};
use crate::job;
use crate::limits;
use crate::mesh::serve;
use crate::search;
use crate::store::StoreModel;
use crate::table;
use crate::types::{JobModel, PeerModel};

verus! {

/// A machine is known by its own key where it is this one, and else by the key that
/// it was paired with. Nobody else is known.
pub proof fn law_known_keys(s: StoreModel, name: Seq<char>, at: int)
    ensures
        name == s.body_name && s.owner_sk.len() == 32 ==> wire::known_key_outcome(s, name) == Ok::<
            Seq<u8>,
            ErrorModel,
        >(crypto::ed25519_public(s.owner_sk)),
        name != s.body_name && 0 <= at < s.peers.len() && s.peers[at].name == name && (forall|j: int|
            0 <= j < at ==> (#[trigger] s.peers[j]).name != name) ==> wire::known_key_outcome(
            s,
            name,
        ) == Ok::<Seq<u8>, ErrorModel>(s.peers[at].owner_pk),
        name != s.body_name && (forall|j: int|
            0 <= j < s.peers.len() ==> (#[trigger] s.peers[j]).name != name)
            ==> wire::known_key_outcome(s, name) is Err,
{
    let test = wire::peer_named(name);
    search::lemma_first(s.peers, test);
    if 0 <= at < s.peers.len() && s.peers[at].name == name && (forall|j: int|
        0 <= j < at ==> (#[trigger] s.peers[j]).name != name) {
        search::lemma_first_at(s.peers, test, at);
    }
}

/// A signature counts where the key is one, the signature has its length, and the
/// key accepts it for exactly these bytes.
pub proof fn law_signature_counts(covered: Seq<u8>, signature: Seq<u8>, key: Seq<u8>)
    ensures
        wire::verify_outcome(covered, signature, key) is Ok <==> key.len() == 32
            && crypto::ed25519_point(key) && signature.len() == 64 && crypto::ed25519_accepts(
            key,
            covered,
            signature,
        ),
{
}

/// An invocation of today counts exactly where both machines are known under the keys
/// that it names and the machine that asks has signed it, within the bounds of a
/// command, and where a repetition has an ID of its own.
pub proof fn law_invocation_counts(s: StoreModel, c: CertificateModel)
    requires
        c.invocation.legacy_observer is None,
    ensures
        ({
            let i = c.invocation;
            wire::validate_invocation_outcome(s, c) is Ok <==> {
                &&& limits::invocation_outcome(i.id, i.argv) is Ok
                &&& i.retry_of matches Some(old) ==> old != i.id && limits::identifier_outcome(
                    old,
                ) is Ok
                &&& wire::known_key_outcome(s, i.from) == Ok::<Seq<u8>, ErrorModel>(i.origin_key)
                &&& wire::known_key_outcome(s, i.body) == Ok::<Seq<u8>, ErrorModel>(i.runner_key)
                &&& wire::verify_outcome(wire::invocation_message(i), c.signature, i.origin_key)
                    is Ok
            }
        }),
{
}

/// What another machine merely observed counts only under that machine's signature,
/// and only where it took part.
pub proof fn law_observation_counts(s: StoreModel, c: CertificateModel, observer: Seq<char>)
    requires
        c.invocation.legacy_observer == Some(observer),
        wire::validate_invocation_outcome(s, c) is Ok,
    ensures
        observer == c.invocation.from || observer == c.invocation.body,
        observer == c.invocation.from ==> wire::known_key_outcome(s, observer) == Ok::<
            Seq<u8>,
            ErrorModel,
        >(c.invocation.origin_key),
        observer != c.invocation.from ==> wire::known_key_outcome(s, observer) == Ok::<
            Seq<u8>,
            ErrorModel,
        >(c.invocation.runner_key),
        wire::known_key_outcome(s, observer) matches Ok(key) && wire::verify_outcome(
            wire::invocation_message(c.invocation),
            c.signature,
            key,
        ) is Ok,
{
}

/// A command may be run for a peer exactly where the peer itself signed it for this
/// machine: passing on someone else's command is no authority.
pub proof fn law_authority_to_run(s: StoreModel, peer: PeerModel, c: CertificateModel)
    ensures
        wire::authorize_outcome(s, peer, c) is Ok <==> {
            &&& wire::validate_invocation_outcome(s, c) is Ok
            &&& c.invocation.legacy_observer is None
            &&& c.invocation.from == peer.name
            &&& c.invocation.origin_key == peer.owner_pk
            &&& c.invocation.body == s.body_name
            &&& s.owner_sk.len() == 32
            &&& c.invocation.runner_key == crypto::ed25519_public(s.owner_sk)
        },
{
}

/// A fact counts where it is about that invocation, in that role, with sound digests,
/// signed by whoever has that role: the origin on delivery alone and without output,
/// the runner on what it accepted.
pub proof fn law_fact_counts(
    s: StoreModel,
    c: CertificateModel,
    signed: SignedFactModel,
    role: Role,
)
    requires
        c.invocation.legacy_observer is None,
    ensures
        ({
            let f = signed.fact;
            let waits = f.status is Queued || f.status is WaitingBody || f.status
                is WaitingCapacity;
            let common = f.role == role && f.invocation == wire::invocation_key(c) && f.revision > 0
                && wire::digest_ok(f.stdout) && wire::digest_ok(f.stderr) && limits::status_outcome(
                f.status,
            ) is Ok;
            &&& role == Role::Origin ==> (wire::validate_fact_outcome(s, c, signed, role) is Ok
                <==> common && (waits || f.status is Failed) && f.stdout.bytes == 0
                && f.stderr.bytes == 0 && wire::verify_outcome(
                wire::fact_message(f),
                signed.signature,
                c.invocation.origin_key,
            ) is Ok)
            &&& role == Role::Runner ==> (wire::validate_fact_outcome(s, c, signed, role) is Ok
                <==> common && !waits && wire::verify_outcome(
                wire::fact_message(f),
                signed.signature,
                c.invocation.runner_key,
            ) is Ok)
            &&& role == Role::LegacyObserver ==> wire::validate_fact_outcome(s, c, signed, role)
                is Err
        }),
{
}

/// A record counts where its invocation does and each fact that it carries does.
pub proof fn law_record_counts(s: StoreModel, record: RecordModel)
    ensures
        ({
            let c = record.certificate;
            let sound = |fact: Option<SignedFactModel>, role: Role|
                fact matches Some(signed) ==> wire::validate_fact_outcome(s, c, signed, role) is Ok;
            &&& c.invocation.legacy_observer is None ==> (wire::validate_record_outcome(s, record)
                is Ok <==> wire::validate_invocation_outcome(s, c) is Ok && sound(
                record.origin,
                Role::Origin,
            ) && sound(record.runner, Role::Runner))
            &&& c.invocation.legacy_observer is Some ==> (wire::validate_record_outcome(s, record)
                is Ok <==> wire::validate_invocation_outcome(s, c) is Ok && record.runner is None
                && sound(record.origin, Role::LegacyObserver))
        }),
{
}

/// A certificate that this machine issues names the job as it is, both machines under
/// the keys they are known by, and what the job repeats, and carries this machine's
/// signature over exactly that.
pub proof fn law_certificate_is_of_the_job(s: StoreModel, of: JobModel, legacy: bool)
    ensures
        wire::certificate_outcome(s, of, legacy) matches Ok(c) ==> {
            &&& c.invocation.id == of.id
            &&& c.invocation.from == of.from
            &&& c.invocation.body == of.body
            &&& c.invocation.argv == of.argv
            &&& c.invocation.retry_of == table::lookup(s.retry_links, of.id)
            &&& !legacy ==> c.invocation.legacy_observer is None && wire::known_key_outcome(
                s,
                of.from,
            ) == Ok::<Seq<u8>, ErrorModel>(c.invocation.origin_key) && wire::known_key_outcome(
                s,
                of.body,
            ) == Ok::<Seq<u8>, ErrorModel>(c.invocation.runner_key)
            &&& legacy ==> c.invocation.legacy_observer == Some(s.body_name)
            &&& c.signature == crypto::ed25519_signature(
                s.owner_sk,
                wire::invocation_message(c.invocation),
            )
        },
        s.owner_sk.len() == 32 && wire::known_key_outcome(s, of.from) is Ok
            && wire::known_key_outcome(s, of.body) is Ok ==> wire::certificate_outcome(
            s,
            of,
            legacy,
        ) is Ok,
        forall|fact: FactModel|
            s.owner_sk.len() == 32 ==> #[trigger] wire::signed_fact_outcome(s, fact) == Ok::<
                SignedFactModel,
                ErrorModel,
            >(
                SignedFactModel {
                    fact,
                    signature: crypto::ed25519_signature(s.owner_sk, wire::fact_message(fact)),
                },
            ),
{
}

/// What a record that arrives does to one author's fact: nothing where it brings none
/// or an older one; otherwise the newer fact stands.
pub open spec fn newer_stands(
    before: Option<SignedFactModel>,
    arriving: Option<SignedFactModel>,
    after: Option<SignedFactModel>,
) -> bool {
    &&& arriving is None ==> after == before
    &&& arriving is Some && before is None ==> after == arriving
    &&& arriving is Some && before is Some && arriving->0.fact.revision
        > before->0.fact.revision ==> after == arriving
    &&& arriving is Some && before is Some && arriving->0.fact.revision
        <= before->0.fact.revision ==> after == before
}

/// A record that is taken in stands under its invocation afterwards: the same
/// certificate, and of each author the newer fact. Where this changed anything the
/// entry has the next number. No other entry changes.
pub proof fn law_record_is_taken_in(s: StoreModel, p: PublishedModel, other: Seq<char>)
    requires
        table::ascending(s.history.entries),
        merge::ingested(s, p).1 is Ok,
    ensures
        ({
            let key = wire::invocation_key(p.record.certificate);
            let (next, result) = merge::ingested(s, p);
            let before = table::lookup(s.history.entries, key);
            let after = table::lookup(next.history.entries, key);
            &&& after is Some
            &&& before is None ==> after->0.record == p.record && result == Ok::<bool, ErrorModel>(
                true,
            )
            &&& before is Some ==> {
                &&& after->0.record.certificate == before->0.record.certificate
                &&& p.record.certificate == before->0.record.certificate
                &&& newer_stands(before->0.record.origin, p.record.origin, after->0.record.origin)
                &&& newer_stands(before->0.record.runner, p.record.runner, after->0.record.runner)
            }
            &&& result == Ok::<bool, ErrorModel>(true) ==> after->0.change == s.history.clock + 1
                && next.history.clock == s.history.clock + 1
            &&& result == Ok::<bool, ErrorModel>(false) ==> next == s
            &&& other != key ==> table::lookup(next.history.entries, other) == table::lookup(
                s.history.entries,
                other,
            )
        }),
{
    let key = wire::invocation_key(p.record.certificate);
    let base = merge::base_entry(s, p.record.certificate);
    let record = merge::merged_record(base.record, p.record)->Ok_0.0;
    let output = merge::merged_output(s, record, base.output, p.output).0;
    let entry = EntryModel { record, change: (s.history.clock + 1) as u64, output };
    table::lemma_stored_lookup(s.history.entries, key, entry, key);
    table::lemma_stored_lookup(s.history.entries, key, entry, other);
}

/// Two facts of one author at one revision must be the same fact, and a finished one
/// has no successor; a record that says otherwise is refused.
pub proof fn law_facts_do_not_contradict(current: SignedFactModel, arriving: SignedFactModel)
    ensures
        ({
            let over = current.fact.status is Done || current.fact.status is Denied
                || current.fact.status is Failed || current.fact.status is Uncertain;
            let result: Outcome<(Option<SignedFactModel>, bool)> = merge::merged_fact(
                Some(current),
                Some(arriving),
            );
            &&& arriving.fact.revision == current.fact.revision && arriving != current ==> result
                is Err
            &&& arriving.fact.revision > current.fact.revision && over ==> result is Err
            &&& arriving == current || arriving.fact.revision < current.fact.revision ==> result
                == Ok::<(Option<SignedFactModel>, bool), ErrorModel>((Some(current), false))
            &&& arriving.fact.revision > current.fact.revision && !over ==> result == Ok::<
                (Option<SignedFactModel>, bool),
                ErrorModel,
            >((Some(arriving), true))
        }),
{
}

/// Output that arrives is taken only where both of its streams are, by size and
/// digest, what the deciding fact says: the runner's, or else the origin's.
pub proof fn law_output_matches_its_fact(s: StoreModel, p: PublishedModel)
    requires
        merge::ingested(s, p).1 is Ok,
        p.output is Some,
    ensures
        ({
            let fact = if p.record.runner is Some {
                p.record.runner
            } else {
                p.record.origin
            };
            &&& fact is Some
            &&& p.output->0.stdout.len() as usize == fact->0.fact.stdout.bytes
            &&& p.output->0.stderr.len() as usize == fact->0.fact.stderr.bytes
            &&& crypto::digest_text(p.output->0.stdout) == fact->0.fact.stdout.sha256
            &&& crypto::digest_text(p.output->0.stderr) == fact->0.fact.stderr.sha256
        }),
{
}

/// A new record's output is kept with it, unless it was pruned here or a job of this
/// machine already has those bytes.
pub proof fn law_output_is_kept(s: StoreModel, p: PublishedModel)
    requires
        table::ascending(s.history.entries),
        merge::ingested(s, p).1 is Ok,
        p.output is Some,
        table::lookup(s.history.entries, wire::invocation_key(p.record.certificate)) is None,
        !table::holds(s.history_pruned, wire::invocation_key(p.record.certificate)),
        forall|i: int|
            0 <= i < s.jobs.len() ==> (#[trigger] s.jobs[i]).id != p.record.certificate.invocation.id,
    ensures
        table::lookup(
            merge::ingested(s, p).0.history.entries,
            wire::invocation_key(p.record.certificate),
        ) matches Some(entry) && entry.output == p.output,
{
    let key = wire::invocation_key(p.record.certificate);
    let base = merge::base_entry(s, p.record.certificate);
    let record = merge::merged_record(base.record, p.record)->Ok_0.0;
    let output = merge::merged_output(s, record, base.output, p.output).0;
    table::lemma_stored_lookup(
        s.history.entries,
        key,
        EntryModel { record, change: (s.history.clock + 1) as u64, output },
        key,
    );
}

/// The runner's signed answer becomes the job: its status, and both streams of its
/// output where they came along and were not pruned here. The job keeps its ID,
/// machines and arguments, and every other job is as it was. A job that is over
/// does not change.
pub proof fn law_answer_becomes_the_job(s: StoreModel, peer: Seq<char>, p: PublishedModel, at: int)
    requires
        table::ascending(s.output_pruned),
        0 <= at < s.jobs.len(),
        s.jobs[at].id == p.record.certificate.invocation.id,
        forall|j: int| 0 <= j < at ==> (#[trigger] s.jobs[j]).id != s.jobs[at].id,
        merge::answered(s, peer, p).1 is Ok,
    ensures
        ({
            let was = s.jobs[at];
            let over = was.status is Done || was.status is Denied || was.status is Failed
                || was.status is Uncertain;
            let (next, result) = merge::answered(s, peer, p);
            let now = next.jobs[at];
            let key = wire::invocation_key(p.record.certificate);
            let pruned = table::holds(s.history_pruned, key) || table::holds(
                s.output_pruned,
                was.id,
            );
            &&& was.body == peer
            &&& p.record.runner is Some
            &&& table::lookup(s.job_certificates, was.id) == Some(key)
            &&& next.jobs.len() == s.jobs.len()
            &&& forall|j: int|
                0 <= j < s.jobs.len() && j != at ==> #[trigger] next.jobs[j] == s.jobs[j]
            &&& over ==> now == was && result == Ok::<Option<JobModel>, ErrorModel>(None)
            &&& !over ==> {
                &&& result == Ok::<Option<JobModel>, ErrorModel>(Some(now))
                &&& now.id == was.id && now.from == was.from && now.body == was.body && now.argv
                    == was.argv
                &&& now.status == p.record.runner->0.fact.status
                &&& p.output is Some && !pruned ==> now.stdout == p.output->0.stdout && now.stderr
                    == p.output->0.stderr
                &&& p.output is None || pruned ==> now.stdout.len() == 0 && now.stderr.len() == 0
                &&& (p.output is None || pruned) && (p.record.runner->0.fact.stdout.bytes != 0
                    || p.record.runner->0.fact.stderr.bytes != 0) ==> table::lookup(
                    next.output_pruned,
                    was.id,
                ) is Some
            }
            &&& next.grants == s.grants && next.requests == s.requests && next.peers == s.peers
        }),
{
    search::lemma_first_at(s.jobs, job::job_with_id(s.jobs[at].id), at);
    table::lemma_stored_lookup(s.output_pruned, s.jobs[at].id, (), s.jobs[at].id);
}

/// An answer is accepted only from the machine that runs the job, with its signed
/// result, about the very admission that this machine made.
pub proof fn law_answer_from_the_runner(s: StoreModel, peer: Seq<char>, p: PublishedModel)
    ensures
        wire::validate_record_outcome(s, p.record) is Err || p.record.certificate.invocation.body
            != peer || p.record.certificate.invocation.legacy_observer is Some || p.record.runner
            is None ==> merge::answered(s, peer, p).1 is Err && merge::answered(s, peer, p).0 == s,
{
}

/// What is given out of an entry is its record word for word, and output only as the
/// deciding fact describes it, both streams of it.
pub proof fn law_given_out_as_it_is(s: StoreModel, entry: EntryModel)
    ensures
        ({
            let out = merge::exported(s, entry);
            let fact = if entry.record.runner is Some {
                entry.record.runner
            } else {
                entry.record.origin
            };
            let key = wire::invocation_key(entry.record.certificate);
            &&& out.record == entry.record
            &&& out.change == entry.change
            &&& table::holds(s.history_pruned, key) ==> out.output is None
            &&& out.output matches Some(o) ==> {
                &&& fact is Some
                &&& wire::output_ref(o.stdout) == fact->0.fact.stdout
                &&& wire::output_ref(o.stderr) == fact->0.fact.stderr
            }
            &&& !table::holds(s.history_pruned, key) && fact is Some && (
            entry.output matches Some(o) && wire::output_ref(o.stdout) == fact->0.fact.stdout
                && wire::output_ref(o.stderr) == fact->0.fact.stderr) ==> out.output is Some
        }),
{
}

/// What refers to output is its length and digest.
pub proof fn law_output_reference(bytes: Seq<u8>)
    requires
        bytes.len() <= usize::MAX,
    ensures
        wire::output_ref(bytes).bytes == bytes.len(),
        wire::output_ref(bytes).sha256 == crypto::digest_text(bytes),
{
}

/// A certificate that is admitted binds its job's ID, stands in the history, and says
/// what the job repeats. Nothing that stood there is lost, and an ID is never bound
/// to a second invocation.
pub proof fn law_admission_binds(s: StoreModel, c: CertificateModel, other: Seq<char>)
    requires
        table::ascending(s.history.entries),
        table::ascending(s.job_certificates),
        table::ascending(s.retry_links),
    ensures
        ({
            let key = wire::invocation_key(c);
            let id = c.invocation.id;
            let (next, result) = merge::admitted(s, c);
            &&& result is Ok ==> {
                &&& table::lookup(next.job_certificates, id) == Some(key)
                &&& table::lookup(next.history.entries, key) is Some
                &&& table::lookup(s.history.entries, key) is None ==> table::lookup(
                    next.history.entries,
                    key,
                )->0.record == (RecordModel { certificate: c, origin: None, runner: None })
                &&& table::lookup(s.history.entries, other) is Some ==> table::lookup(
                    next.history.entries,
                    other,
                ) == table::lookup(s.history.entries, other)
                &&& other != id ==> table::lookup(next.job_certificates, other) == table::lookup(
                    s.job_certificates,
                    other,
                )
                &&& c.invocation.retry_of is Some ==> table::lookup(next.retry_links, id)
                    == c.invocation.retry_of
            }
            &&& result is Err ==> next == s
            &&& (table::lookup(s.job_certificates, id) matches Some(bound) && bound != key)
                ==> result is Err
            &&& table::lookup(s.job_certificates, id) is None && (exists|i: int|
                0 <= i < s.jobs.len() && (#[trigger] s.jobs[i]).id == id) ==> result is Err
            &&& table::lookup(s.job_certificates, id) is None && (forall|i: int|
                0 <= i < s.jobs.len() ==> (#[trigger] s.jobs[i]).id != id) && s.history.clock
                < u64::MAX ==> result is Ok
            &&& next.jobs == s.jobs && next.grants == s.grants && next.requests == s.requests
        }),
{
    let key = wire::invocation_key(c);
    let id = c.invocation.id;
    search::lemma_first(s.jobs, job::job_with_id(id));
    if exists|i: int| 0 <= i < s.jobs.len() && (#[trigger] s.jobs[i]).id == id {
        let i = choose|i: int| 0 <= i < s.jobs.len() && (#[trigger] s.jobs[i]).id == id;
        assert(job::job_with_id(id)(s.jobs[i]));
    }
    let entry = publish::bare_entry(c, (s.history.clock + 1) as u64);
    table::lemma_stored_lookup(s.history.entries, key, entry, key);
    table::lemma_stored_lookup(s.history.entries, key, entry, other);
    table::lemma_stored_lookup(s.job_certificates, id, key, other);
    if c.invocation.retry_of is Some {
        table::lemma_stored_lookup(s.retry_links, id, c.invocation.retry_of->0, id);
    }
}

/// What a machine is told about an invocation that it asked for: nothing while there is
/// no such job, and the job with its record where it was admitted as that invocation.
pub proof fn law_reply_about_an_invocation(s: StoreModel, c: CertificateModel, at: int)
    ensures
        ({
            let key = wire::invocation_key(c);
            let result: Outcome<Option<(JobModel, PublishedModel)>> = merge::reply_outcome(s, c);
            &&& (forall|i: int|
                0 <= i < s.jobs.len() ==> (#[trigger] s.jobs[i]).id != c.invocation.id) ==> result
                == Ok::<Option<(JobModel, PublishedModel)>, ErrorModel>(None)
            &&& result matches Ok(Some((told, published))) ==> {
                &&& told.id == c.invocation.id && told.from == c.invocation.from && told.body
                    == c.invocation.body && told.argv == c.invocation.argv
                &&& s.jobs.contains(told)
                &&& table::lookup(s.job_certificates, told.id) == Some(key)
                &&& table::lookup(s.history.entries, key) matches Some(entry) && published
                    == merge::exported(s, entry)
            }
            &&& 0 <= at < s.jobs.len() && s.jobs[at].id == c.invocation.id && (forall|j: int|
                0 <= j < at ==> (#[trigger] s.jobs[j]).id != c.invocation.id) && s.jobs[at].from
                == c.invocation.from && s.jobs[at].body == c.invocation.body && s.jobs[at].argv
                == c.invocation.argv && table::lookup(s.job_certificates, c.invocation.id) == Some(
                key,
            ) && table::lookup(s.history.entries, key) is Some ==> (
            result matches Ok(Some((told, _))) && told == s.jobs[at])
        }),
{
    let test = job::job_with_id(c.invocation.id);
    search::lemma_first(s.jobs, test);
    if 0 <= at < s.jobs.len() && s.jobs[at].id == c.invocation.id && (forall|j: int|
        0 <= j < at ==> (#[trigger] s.jobs[j]).id != c.invocation.id) {
        search::lemma_first_at(s.jobs, test, at);
    }
}

/// What this machine says of a job: as its runner the status, with both streams'
/// digests, once it has accepted it; as its origin the delivery, without output. Each
/// statement has the next revision and this machine's signature.
pub proof fn law_what_is_said_of_a_job(s: StoreModel, said: JobModel, key: Seq<char>)
    requires
        table::ascending(s.history.entries),
        s.owner_sk.len() == 32,
        s.history.clock < u64::MAX,
        table::lookup(s.history.entries, key) is Some,
        !table::holds(s.output_pruned, said.id),
        ({
            let i = table::lookup(s.history.entries, key)->0.record.certificate.invocation;
            i.id == said.id && i.from == said.from && i.body == said.body && i.argv == said.argv
                && i.legacy_observer is None
        }),
    ensures
        ({
            let before = table::lookup(s.history.entries, key)->0.record;
            let (next, result) = publish::spoken(s, said, key);
            let after = table::lookup(next.history.entries, key)->0.record;
            let runs = said.body == s.body_name && !(said.status is Queued || said.status
                is WaitingCapacity);
            let asks = said.from == s.body_name && (said.status is Queued || said.status
                is WaitingBody || said.status is WaitingCapacity || said.status is Failed);
            &&& runs && before.runner is None ==> {
                &&& result is Ok
                &&& after.runner is Some
                &&& after.origin == before.origin
                &&& after.runner->0.fact == (FactModel {
                    invocation: key,
                    role: Role::Runner,
                    revision: 1,
                    status: said.status,
                    stdout: wire::output_ref(said.stdout),
                    stderr: wire::output_ref(said.stderr),
                })
                &&& after.runner->0.signature == crypto::ed25519_signature(
                    s.owner_sk,
                    wire::fact_message(after.runner->0.fact),
                )
            }
            &&& runs && (before.runner matches Some(f) && f.fact.revision < u64::MAX && !(
            f.fact.status is Done || f.fact.status is Denied || f.fact.status is Failed
                || f.fact.status is Uncertain) && f.fact.status != said.status) ==> {
                &&& result is Ok
                &&& after.runner is Some
                &&& after.runner->0.fact.status == said.status
                &&& after.runner->0.fact.revision == before.runner->0.fact.revision + 1
                &&& after.runner->0.fact.stdout == wire::output_ref(said.stdout)
                &&& after.runner->0.fact.stderr == wire::output_ref(said.stderr)
            }
            &&& !runs && asks && before.origin is None ==> {
                &&& result is Ok
                &&& after.origin is Some
                &&& after.runner == before.runner
                &&& after.origin->0.fact.role == Role::Origin
                &&& after.origin->0.fact.status == said.status
                &&& after.origin->0.fact.stdout == wire::output_ref(Seq::empty())
                &&& after.origin->0.fact.stderr == wire::output_ref(Seq::empty())
            }
            &&& !runs && !asks ==> result is Ok && next == s
            &&& after.certificate == before.certificate
        }),
{
    let entry = table::lookup(s.history.entries, key)->0;
    if let Some((role, previous)) = publish::voice(s, entry.record, said) {
        if let Ok((stdout, stderr)) = publish::digests(s, said, role, previous) {
            let revision = match previous {
                Some(p) => (p.fact.revision + 1) as u64,
                None => 1u64,
            };
            let fact = FactModel {
                invocation: key,
                role,
                revision,
                status: said.status,
                stdout,
                stderr,
            };
            if let Ok(signed) = wire::signed_fact_outcome(s, fact) {
                let next = publish::with_fact(
                    s,
                    said,
                    entry,
                    signed,
                    (s.history.clock + 1) as u64,
                );
                table::lemma_stored_lookup(s.history.entries, key, next, key);
            }
        }
    }
}

/// A page that arrives moves the cursor to where the page ended and remembers which
/// history it was read from, and whether there is more.
pub proof fn law_page_moves_the_cursor(
    s: StoreModel,
    peer: Seq<char>,
    progress: ProgressModel,
    page: PageModel,
)
    requires
        table::ascending(s.history.peers),
        page::page_merged(s, peer, progress, page).1 is Ok,
    ensures
        table::lookup(page::page_merged(s, peer, progress, page).0.history.peers, peer) matches Some(
            now,
        ) && now.epoch == page.epoch && now.cursor == page.next && now.high == page.high
            && now.complete == page.complete && now.error is None,
{
    let unknown = !page.reset && progress.unknown_authors;
    lemma_rows_keep_peers(s, page.entries, 0, unknown);
    let next = page::rows_merged(s, page.entries, 0, unknown).0;
    table::lemma_stored_lookup(
        next.history.peers,
        peer,
        ProgressModel {
            epoch: page.epoch,
            cursor: page.next,
            high: page.high,
            complete: page.complete,
            unknown_authors: page::rows_merged(s, page.entries, 0, unknown).1->Ok_0,
            last_contact: None,
            error: None,
        },
        peer,
    );
}

proof fn lemma_rows_keep_peers(s: StoreModel, entries: Seq<PublishedModel>, i: int, unknown: bool)
    ensures
        page::rows_merged(s, entries, i, unknown).0.history.peers == s.history.peers,
    decreases entries.len() - i,
{
    if i < entries.len() {
        if !page::authors_are_known(s, entries[i].record.certificate) {
            lemma_rows_keep_peers(s, entries, i + 1, true);
        } else {
            let (next, step) = merge::ingested(s, entries[i]);
            if step is Ok {
                lemma_rows_keep_peers(next, entries, i + 1, unknown);
            }
        }
    }
}

/// A page counts where it is within its bounds, of a named history, goes on from
/// where the reader stood, or starts over, and has its changes in order.
pub proof fn law_page_counts(progress: ProgressModel, page: PageModel)
    requires
        page::page_check(progress, page) is Ok,
    ensures
        page.entries.len() <= page::PAGE_ROWS,
        page.next <= page.high,
        page.epoch.len() > 0,
        page.complete ==> page.next == page.high,
        !page.reset ==> page.epoch == progress.epoch && progress.cursor <= page.next,
        forall|i: int|
            0 <= i < page.entries.len() ==> (#[trigger] page.entries[i]).change <= page.next,
        forall|i: int|
            0 <= i < page.entries.len() && !page.reset ==> (#[trigger] page.entries[i]).change
                > progress.cursor,
        forall|i: int, j: int|
            0 <= i < j < page.entries.len() ==> (#[trigger] page.entries[i]).change < (
            #[trigger] page.entries[j]).change,
{
    lemma_ascending_changes(
        page.entries,
        0,
        if page.reset {
            0
        } else {
            progress.cursor
        },
        page.next,
    );
}

proof fn lemma_ascending_changes(entries: Seq<PublishedModel>, i: int, previous: u64, next: u64)
    requires
        0 <= i <= entries.len(),
        page::ascends(entries, i, previous, next),
    ensures
        forall|j: int| i <= j < entries.len() ==> previous < (#[trigger] entries[j]).change <= next,
        forall|j: int, k: int|
            i <= j < k < entries.len() ==> (#[trigger] entries[j]).change < (
            #[trigger] entries[k]).change,
    decreases entries.len() - i,
{
    if i < entries.len() {
        lemma_ascending_changes(entries, i + 1, entries[i].change, next);
    }
}

/// A page is asked for at the peer's address, from where the last one ended, and an
/// unfinished scan keeps the boundary that it started with.
pub proof fn law_next_page_goes_on(s: StoreModel, peer: PeerModel)
    ensures
        s.write_error is None && peer.addr is Some ==> {
            &&& sync::ask_outcome(s, peer) matches Ok(ask)
            &&& Some(ask.addr) == peer.addr
            &&& ask.trust == s.history.trust
            &&& table::lookup(s.history.peers, peer.name) matches Some(progress) ==> {
                &&& ask.progress == progress
                &&& !progress.complete && progress.epoch.len() > 0 ==> ask.high == Some(
                    progress.high,
                )
                &&& progress.complete || progress.epoch.len() == 0 ==> ask.high is None
            }
            &&& table::lookup(s.history.peers, peer.name) is None ==> ask.progress.cursor == 0
                && !ask.progress.complete && ask.progress.epoch == ""@
        },
        s.write_error is None && peer.addr is None ==> sync::ask_outcome(s, peer) == Err::<
            sync::PageAskModel,
            ErrorModel,
        >(ErrorModel::Unreachable),
        s.write_error is Some ==> sync::ask_outcome(s, peer) is Err,
{
}

/// A job's record is the one that its certificate names, where that speaks of this very
/// job and was not told by someone else.
pub proof fn law_record_of_a_job(s: StoreModel, job: JobModel, key: Seq<char>, entry: EntryModel)
    ensures
        ({
            let i = entry.record.certificate.invocation;
            let named = table::lookup(s.job_certificates, job.id) == Some(key) && table::lookup(
                s.history.entries,
                key,
            ) == Some(entry);
            let same = i.legacy_observer is None && i.id == job.id && i.from == job.from && i.body
                == job.body && i.argv == job.argv;
            &&& named && same ==> merge::entry_for(s, job) == Some(entry)
            &&& named && !same ==> merge::entry_for(s, job) is None
            &&& table::lookup(s.job_certificates, job.id) is None ==> merge::entry_for(s, job)
                is None
            &&& merge::entry_for(s, job) matches Some(e) ==> exists|k: Seq<char>|
                table::lookup(s.job_certificates, job.id) == Some(k) && #[trigger] table::lookup(
                    s.history.entries,
                    k,
                ) == Some(e)
        }),
{
    if merge::entry_for(s, job) is Some {
        let k = table::lookup(s.job_certificates, job.id)->0;
        assert(table::lookup(s.history.entries, k) == merge::entry_for(s, job));
    }
}

/// What the runner says goes before what the asker says.
pub proof fn law_runner_goes_first(r: RecordModel)
    ensures
        r.runner is Some ==> r.selected() == r.runner,
        r.runner is None ==> r.selected() == r.origin,
{
}

/// Output is given with a record only where it is what the fact signs for: from the job
/// itself where that holds it, else from the record. Output that was given up is not
/// given.
pub proof fn law_output_with_a_record(
    s: StoreModel,
    entry: EntryModel,
    local: Option<JobModel>,
    fact: SignedFactModel,
)
    requires
        entry.record.selected() == Some(fact),
    ensures
        ({
            let key = wire::invocation_key(entry.record.certificate);
            let given = merge::selected_output(s, entry, local);
            &&& given matches Some(output) ==> {
                &&& wire::output_ref(output.stdout) == fact.fact.stdout
                &&& wire::output_ref(output.stderr) == fact.fact.stderr
                &&& !table::holds(s.history_pruned, key)
                &&& given == entry.output || (local is Some && output.stdout == local->0.stdout
                    && output.stderr == local->0.stderr)
            }
            &&& entry.output is Some && wire::output_ref(entry.output->0.stdout)
                == fact.fact.stdout && wire::output_ref(entry.output->0.stderr)
                == fact.fact.stderr && !table::holds(s.history_pruned, key) ==> given is Some
            &&& local is Some && table::lookup(s.job_certificates, local->0.id) == Some(key)
                && entry.record.certificate.invocation.id == local->0.id
                && entry.record.certificate.invocation.from == local->0.from
                && entry.record.certificate.invocation.body == local->0.body
                && entry.record.certificate.invocation.argv == local->0.argv && !table::holds(
                s.output_pruned,
                local->0.id,
            ) && wire::output_ref(local->0.stdout) == fact.fact.stdout && wire::output_ref(local->0.stderr)
                == fact.fact.stderr && !table::holds(s.history_pruned, key) ==> given == Some(
                CapturedOutputModel { stdout: local->0.stdout, stderr: local->0.stderr },
            )
        }),
{
}

/// The authors of a record are known where both its asker and its runner are, and of a
/// retold one where the one who told it is.
pub proof fn law_authors(s: StoreModel, c: CertificateModel)
    ensures
        c.invocation.legacy_observer is None ==> (page::authors_are_known(s, c)
            <==> wire::known_key_outcome(s, c.invocation.from) is Ok && wire::known_key_outcome(
            s,
            c.invocation.body,
        ) is Ok),
        c.invocation.legacy_observer matches Some(observer) ==> (page::authors_are_known(s, c)
            <==> wire::known_key_outcome(s, observer) is Ok),
{
}

/// A page is taken only into the state that it was asked from. One that moves nothing
/// is not written down, and any other is.
pub proof fn law_page_is_taken(s: StoreModel, peer: Seq<char>, ask: PageAskModel, page: PageModel)
    requires
        page::page_check(ask.progress, page) is Ok,
    ensures
        ({
            let now = page::progress_of(s, peer);
            let still = s.history.trust == ask.trust && now.epoch == ask.progress.epoch
                && now.cursor == ask.progress.cursor && now.high == ask.progress.high;
            let idle = !page.reset && page.next == ask.progress.cursor && page.entries.len() == 0
                && page.complete == ask.progress.complete && page.high == ask.progress.high;
            let taken = sync::taken_outcome(s, peer, ask, page);
            &&& !still ==> taken == Ok::<PageTakenModel, ErrorModel>(PageTakenModel::Stale)
            &&& still && idle ==> taken == Ok::<PageTakenModel, ErrorModel>(PageTakenModel::Same)
            &&& still && !idle ==> match taken {
                Ok(step) => step == PageTakenModel::Save(
                    page::page_merged(s, peer, ask.progress, page).0,
                ),
                Err(e) => page::page_merged(s, peer, ask.progress, page).1 == Err::<
                    (),
                    ErrorModel,
                >(e),
            }
        }),
{
}

/// A page that breaks its bounds is refused.
pub proof fn law_page_bounds(s: StoreModel, peer: Seq<char>, ask: PageAskModel, page: PageModel)
    ensures
        page.entries.len() > 16 || page.next > page.high || page.epoch.len() == 0 || (!page.reset
            && page.epoch != ask.progress.epoch) || (!page.reset && page.next
            < ask.progress.cursor) || (page.complete && page.next != page.high)
            ==> sync::taken_outcome(s, peer, ask, page) is Err,
{
}

/// A peer that was not read yet starts at the beginning.
pub proof fn law_reading_starts_at_the_beginning(s: StoreModel, peer: Seq<char>)
    ensures
        table::lookup(s.history.peers, peer) is None ==> {
            let p = page::progress_of(s, peer);
            p.epoch == ""@ && p.cursor == 0 && p.high == 0 && !p.complete && !p.unknown_authors
                && p.last_contact is None && p.error is None
        },
        table::lookup(s.history.peers, peer) matches Some(p) ==> page::progress_of(s, peer) == p,
{
}

/// A peer that asks for history says where it stands, and an epoch of any sensible
/// length.
pub proof fn law_page_needs_a_cursor(
    s: StoreModel,
    epoch: Seq<char>,
    after: Option<u64>,
    high: Option<u64>,
)
    ensures
        crate::text::byte_len(epoch) > 128 ==> serve::page_reply(s, epoch, after, high) is Err,
        after is None ==> serve::page_reply(s, epoch, after, high) is Err,
        crate::text::byte_len(epoch) <= 128 && after is Some ==> serve::page_reply(
            s,
            epoch,
            after,
            high,
        ) == page::page_outcome(s, epoch, after->0, high),
{
}

/// A job is bound to one record for good. One that is bound anew is marked as told where
/// it was marked before, was asked for by another machine or was known from before, and
/// its record is the next change.
pub proof fn law_job_is_bound(s: StoreModel, job: JobModel, known: bool, other: Seq<char>)
    requires
        table::ascending(s.job_certificates),
        table::ascending(s.legacy_jobs),
        table::ascending(s.history.entries),
    ensures
        ({
            let (next, step) = publish::bound(s, job, known);
            let bound_to = table::lookup(s.job_certificates, job.id);
            let told = table::lookup(s.legacy_jobs, job.id) is Some || job.from != s.body_name
                || known;
            &&& bound_to matches Some(key) ==> next == s && step == Ok::<Seq<char>, ErrorModel>(key)
            &&& bound_to is None ==> {
                &&& table::lookup(next.legacy_jobs, job.id) is Some <==> told
                &&& other != job.id ==> table::lookup(next.legacy_jobs, other) == table::lookup(
                    s.legacy_jobs,
                    other,
                ) && table::lookup(next.job_certificates, other) == table::lookup(
                    s.job_certificates,
                    other,
                )
                &&& step matches Ok(key) ==> {
                    &&& table::lookup(next.job_certificates, job.id) == Some(key)
                    &&& next.history.clock == s.history.clock + 1
                    &&& table::lookup(next.history.entries, key) matches Some(entry)
                    &&& entry.change == next.history.clock
                    &&& wire::invocation_key(entry.record.certificate) == key
                    &&& entry.record.certificate.invocation.id == job.id
                    &&& entry.record.certificate.invocation.argv == job.argv
                }
                &&& step is Err ==> next.job_certificates == s.job_certificates && next.history
                    == s.history
                &&& next.jobs == s.jobs
            }
        }),
{
    table::lemma_stored_lookup(s.legacy_jobs, job.id, (), other);
    let (next, step) = publish::bound(s, job, known);
    if step is Ok && table::lookup(s.job_certificates, job.id) is None {
        let key = step->Ok_0;
        table::lemma_stored_lookup(s.job_certificates, job.id, key, other);
        let told = table::holds(s.legacy_jobs, job.id) || job.from != s.body_name || known;
        let marked = if told {
            StoreModel { legacy_jobs: table::stored(s.legacy_jobs, job.id, ()), ..s }
        } else {
            s
        };
        let c = wire::certificate_outcome(marked, job, told)->Ok_0;
        table::lemma_stored_lookup(
            s.history.entries,
            key,
            publish::bare_entry(c, (s.history.clock + 1) as u64),
            key,
        );
    }
}

/// A new fact of a job leaves the record's output where it is, unless the fact signs for
/// other output or the job itself holds it.
pub proof fn law_output_after_a_fact(
    s: StoreModel,
    job: JobModel,
    entry: EntryModel,
    signed: SignedFactModel,
    change: u64,
)
    ensures
        ({
            let next = publish::with_fact(s, job, entry, signed, change);
            let fact = next.record.selected()->0.fact;
            let held = table::lookup(s.output_pruned, job.id) is None && wire::output_ref(
                job.stdout,
            ) == fact.stdout && wire::output_ref(job.stderr) == fact.stderr;
            let fits = entry.output is Some && wire::output_ref(entry.output->0.stdout)
                == fact.stdout && wire::output_ref(entry.output->0.stderr) == fact.stderr;
            &&& next.change == change
            &&& fits && !held ==> next.output == entry.output
            &&& !fits || held ==> next.output is None
        }),
{
}

} // verus!
