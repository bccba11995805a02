//! Admission of commands and what their runs leave behind.

use vstd::prelude::*;

use crate::data::Data;
use crate::error;
use crate::error::{protocol, usage, ClixError, ErrorModel, Outcome, Result};
use crate::grant;
use crate::grant::{check_args, find_grant};
use crate::history::{
    bind_admission, invocation_hash, validate_invocation, Certificate, CertificateModel,
};
use crate::history::merge;
use crate::history::wire;
use crate::job;
use crate::job::find_job;
use crate::limits;
use crate::limits::{Limits, OUTPUT_STREAM_BYTES};
use crate::request;
use crate::request::upsert;
use crate::search;
use crate::store;
use crate::store::{Store, StoreModel};
use crate::table;
use crate::text;
use crate::text::{cat3, cat4, cat5, owned, signed_text, text_same};
use crate::types::{
    BodyId, Grant, GrantModel, Job, JobModel, JobStatus, JobStatusModel, LocalTime, LocalTimeModel,
};

verus! {

pub open spec fn argv_outcome(grant: GrantModel, argv: Seq<Seq<char>>) -> Outcome<()> {
    if argv.len() > 0 && argv[0] == grant.tool {
        Ok(())
    } else {
        Err(ErrorModel::Usage("argv[0] is not granted"@))
    }
}

/// A grant runs only the tool that it names.
pub fn validate_argv(grant: &Grant, argv: &Vec<String>) -> (result: Result<()>)
    ensures
        error::outcome(result) == argv_outcome(grant@, argv.deep_view()),
{
    if argv.len() > 0 {
        assert(argv.deep_view()[0] == argv@[0]@);
        if argv[0].same(&grant.tool) {
            return Ok(());
        }
    }
    Err(usage("argv[0] is not granted"))
}

/// The program, the name it is run under and its arguments.
#[derive(Debug, Clone, PartialEq, Eq)]
pub struct CommandLine {
    pub program: String,
    pub arg0: String,
    pub args: Vec<String>,
}

#[verifier::ext_equal]
pub struct CommandLineModel {
    pub program: Seq<char>,
    pub arg0: Seq<char>,
    pub args: Seq<Seq<char>>,
}

impl View for CommandLine {
    type V = CommandLineModel;

    open spec fn view(&self) -> CommandLineModel {
        CommandLineModel {
            program: self.program@,
            arg0: self.arg0@,
            args: self.args.deep_view(),
        }
    }
}

impl DeepView for CommandLine {
    type V = CommandLineModel;

    open spec fn deep_view(&self) -> CommandLineModel {
        self@
    }
}

/// The granted path is executed directly, with the arguments as they came.
pub open spec fn command_outcome(grant: GrantModel, argv: Seq<Seq<char>>) -> Outcome<
    CommandLineModel,
> {
    match argv_outcome(grant, argv) {
        Err(e) => Err(e),
        Ok(_) => Ok(
            CommandLineModel { program: grant.binary, arg0: grant.tool, args: argv.skip(1) },
        ),
    }
}

pub fn command(grant: &Grant, argv: &Vec<String>) -> (result: Result<CommandLine>)
    ensures
        error::outcome(result) == command_outcome(grant@, argv.deep_view()),
{
    if let Err(e) = validate_argv(grant, argv) {
        return Err(e);
    }
    let ghost view = argv.deep_view();
    let mut args: Vec<String> = Vec::new();
    let mut i: usize = 1;
    while i < argv.len()
        invariant
            1 <= i <= argv.len(),
            view == argv.deep_view(),
            args.len() == i - 1,
            forall|j: int| 0 <= j < args.len() ==> (#[trigger] args@[j])@ == view[j + 1],
        decreases argv.len() - i,
    {
        assert(view[i as int] == argv@[i as int]@);
        args.push(argv[i].dup());
        i += 1;
    }
    assert(args.deep_view() =~= view.skip(1));
    Ok(CommandLine { program: grant.binary.dup(), arg0: grant.tool.dup(), args })
}

/// What became of a submission.
#[derive(Debug, Clone)]
pub enum Submission {
    /// The same invocation was submitted before; nothing is run again.
    Known(Job),
    /// Refused; the refusal is recorded.
    Denied(Job),
    /// Accepted: run it under this grant.
    Run(Job, Grant),
}

#[verifier::ext_equal]
pub enum SubmissionModel {
    Known(JobModel),
    Denied(JobModel),
    Run(JobModel, GrantModel),
}

impl View for Submission {
    type V = SubmissionModel;

    open spec fn view(&self) -> SubmissionModel {
        match self {
            Submission::Known(job) => SubmissionModel::Known(job@),
            Submission::Denied(job) => SubmissionModel::Denied(job@),
            Submission::Run(job, grant) => SubmissionModel::Run(job@, grant@),
        }
    }
}

impl DeepView for Submission {
    type V = SubmissionModel;

    open spec fn deep_view(&self) -> SubmissionModel {
        self@
    }
}

/// A job of this machine's own that has still to be started here.
pub open spec fn local_queue(s: StoreModel, from: Seq<char>, job: JobModel) -> bool {
    from == s.body_name && (job.status is Queued || job.status is WaitingCapacity)
}

/// A certificate names this machine as the one to run its command.
pub open spec fn certified_outcome(s: StoreModel, certificate: Option<CertificateModel>) -> Outcome<
    (),
> {
    match certificate {
        None => Ok(()),
        Some(c) => if wire::validate_invocation_outcome(s, c) is Err {
            wire::validate_invocation_outcome(s, c)
        } else if c.invocation.legacy_observer is Some || c.invocation.body != s.body_name {
            Err(ErrorModel::Protocol("invalid certified execution destination"@))
        } else {
            Ok(())
        },
    }
}

/// Whether a known job is the invocation that arrives again.
pub open spec fn same_invocation_outcome(
    s: StoreModel,
    existing: JobModel,
    from: Seq<char>,
    argv: Seq<Seq<char>>,
    certificate: Option<CertificateModel>,
) -> Outcome<()> {
    if existing.from != from || existing.body != s.body_name || existing.argv != argv {
        Err(ErrorModel::Protocol("job ID belongs to a different invocation"@))
    } else if certificate is Some && table::lookup(s.job_certificates, existing.id) != Some(
        wire::invocation_key(certificate->0),
    ) {
        Err(ErrorModel::Protocol("job ID belongs to a different signed admission"@))
    } else {
        Ok(())
    }
}

pub open spec fn new_job(
    s: StoreModel,
    from: Seq<char>,
    argv: Seq<Seq<char>>,
    id: Seq<char>,
    status: JobStatusModel,
) -> JobModel {
    JobModel {
        id,
        body: s.body_name,
        argv,
        from,
        status,
        stdout: Seq::empty(),
        stderr: Seq::empty(),
    }
}

/// A single-use grant held for one run.
pub open spec fn reserved(s: StoreModel, tool: Seq<char>, id: Seq<char>) -> StoreModel {
    match search::first(s.grants, grant::grant_of_tool(tool)) {
        None => s,
        Some(at) => StoreModel {
            grants: s.grants.update(at, GrantModel { reservation: Some(id), ..s.grants[at] }),
            ..s
        },
    }
}

/// Admission of a command that is not known yet, given whether a slot is free.
pub open spec fn accepted(
    s: StoreModel,
    free: bool,
    from: Seq<char>,
    argv: Seq<Seq<char>>,
    id: Seq<char>,
    now: LocalTimeModel,
    fresh_id: Seq<char>,
) -> (StoreModel, Outcome<SubmissionModel>) {
    match grant::check_args_outcome(s, argv, from, now) {
        Ok(grant) => if !free {
            (
                s,
                Err(ErrorModel::Capacity("execution slots are busy; waiting for capacity"@)),
            )
        } else {
            let job = new_job(s, from, argv, id, JobStatusModel::Running);
            let held = if grant.once {
                reserved(s, grant.tool, id)
            } else {
                s
            };
            (
                StoreModel { jobs: store::with_job(s.jobs, job), ..held },
                Ok(SubmissionModel::Run(job, grant)),
            )
        },
        Err(refusal) => {
            let (asked, asking) = if refusal is GrantBusy {
                (s, None)
            } else {
                let (next, row) = request::upserted(s, from, argv[0], fresh_id);
                (next, Some(row))
            };
            if asking is Some && asking->0 is Err {
                (s, Err(asking->0->Err_0))
            } else {
                let job = new_job(
                    s,
                    from,
                    argv,
                    id,
                    JobStatusModel::Denied { reason: refusal.message() },
                );
                (
                    StoreModel { jobs: store::with_job(s.jobs, job), ..asked },
                    Ok(SubmissionModel::Denied(job)),
                )
            }
        },
    }
}

/// Everything that a submission does to the state.
pub open spec fn submitted(
    s: StoreModel,
    free: bool,
    from: Seq<char>,
    argv: Seq<Seq<char>>,
    id: Seq<char>,
    certificate: Option<CertificateModel>,
    now: LocalTimeModel,
    fresh_id: Seq<char>,
) -> (StoreModel, Outcome<SubmissionModel>) {
    if limits::invocation_outcome(id, argv) is Err {
        (s, Err(limits::invocation_outcome(id, argv)->Err_0))
    } else if certified_outcome(s, certificate) is Err {
        (s, Err(certified_outcome(s, certificate)->Err_0))
    } else {
        let existing = search::found(s.jobs, job::job_with_id(id));
        if existing is Some && same_invocation_outcome(s, existing->0, from, argv, certificate) is Err {
            (s, Err(same_invocation_outcome(s, existing->0, from, argv, certificate)->Err_0))
        } else if existing is Some && !local_queue(s, from, existing->0) {
            (s, Ok(SubmissionModel::Known(existing->0)))
        } else {
            let (bound, binding) = match certificate {
                Some(c) => merge::admitted(s, c),
                None => (s, Ok(())),
            };
            match binding {
                Err(e) => (s, Err(e)),
                Ok(_) => {
                    let (next, result) = accepted(bound, free, from, argv, id, now, fresh_id);
                    (
                        if result is Ok {
                            next
                        } else {
                            s
                        },
                        result,
                    )
                },
            }
        }
    }
}

fn check_certified(store: &Store, certificate: Option<&Certificate>) -> (result: Result<()>)
    ensures
        error::outcome(result) == certified_outcome(
            store@,
            match certificate {
                Some(c) => Some(c@),
                None => None,
            },
        ),
{
    if let Some(c) = certificate {
        if let Err(e) = validate_invocation(store, c) {
            return Err(e);
        }
        if c.invocation.legacy_observer.is_some() || !text_same(
            &c.invocation.body.0,
            &store.body_name,
        ) {
            return Err(protocol("invalid certified execution destination"));
        }
    }
    Ok(())
}

fn check_same(
    store: &Store,
    existing: &Job,
    from: &BodyId,
    argv: &Vec<String>,
    certificate: Option<&Certificate>,
) -> (result: Result<()>)
    ensures
        error::outcome(result) == same_invocation_outcome(
            store@,
            existing@,
            from@,
            argv.deep_view(),
            match certificate {
                Some(c) => Some(c@),
                None => None,
            },
        ),
{
    if !existing.from.same(from) || !text_same(&existing.body.0, &store.body_name)
        || !existing.argv.same(argv) {
        return Err(protocol("job ID belongs to a different invocation"));
    }
    if let Some(c) = certificate {
        let key = match invocation_hash(c) {
            Ok(key) => key,
            Err(e) => return Err(e),
        };
        let bound: bool = match store.job_certificates.get(&existing.id) {
            Some(earlier) => earlier.same(&key),
            None => false,
        };
        if !bound {
            return Err(protocol("job ID belongs to a different signed admission"));
        }
    }
    Ok(())
}

fn reserve(store: &mut Store, tool: &str, id: &str)
    ensures
        final(store)@ == reserved(old(store)@, tool@, id@),
{
    let ghost start = store@;
    if let Some(at) = find_grant(&store.grants, tool) {
        assert(start.grants[at as int] == store.grants@[at as int]@);
        let mut grant = store.grants[at].dup();
        grant.reservation = Some(owned(id));
        let ghost item = grant@;
        store.grants[at] = grant;
        assert(store.grants.deep_view() =~= start.grants.update(at as int, item));
    }
}

fn job_of(store: &Store, from: &BodyId, argv: &Vec<String>, id: &str, status: JobStatus) -> (job:
    Job)
    ensures
        job@ == new_job(store@, from@, argv.deep_view(), id@, status@),
{
    let job = Job {
        id: owned(id),
        body: BodyId(store.body_name.dup()),
        argv: argv.dup(),
        from: from.dup(),
        status,
        stdout: Vec::new(),
        stderr: Vec::new(),
    };
    assert(job.stdout@ =~= Seq::empty());
    assert(job.stderr@ =~= Seq::empty());
    job
}

fn accept(
    store: &mut Store,
    limits: &mut Limits,
    from: &BodyId,
    argv: &Vec<String>,
    id: &str,
    now: &LocalTime,
    fresh_id: String,
) -> (result: Result<Submission>)
    requires
        argv.len() > 0,
    ensures
        error::outcome(result) == accepted(
            old(store)@,
            old(limits).children.taken() < old(limits).children.size(),
            from@,
            argv.deep_view(),
            id@,
            now@,
            fresh_id@,
        ).1,
        result is Ok ==> final(store)@ == accepted(
            old(store)@,
            old(limits).children.taken() < old(limits).children.size(),
            from@,
            argv.deep_view(),
            id@,
            now@,
            fresh_id@,
        ).0,
        final(limits).children.taken() == old(limits).children.taken() + if error::outcome(
            result,
        ) matches Ok(SubmissionModel::Run(_, _)) {
            1int
        } else {
            0int
        },
        final(limits).children.size() == old(limits).children.size(),
        final(limits).mesh == old(limits).mesh,
        final(limits).mesh_exec == old(limits).mesh_exec,
        final(limits).owner == old(limits).owner,
        final(limits).waiters == old(limits).waiters,
{
    match check_args(store, argv, from, now) {
        Ok(grant) => {
            if let Err(e) = limits.child() {
                return Err(e);
            }
            let job = job_of(store, from, argv, id, JobStatus::Running);
            if grant.once {
                reserve(store, &grant.tool, id);
            }
            store.put_job(job.dup());
            Ok(Submission::Run(job, grant))
        },
        Err(refusal) => {
            let busy: bool = match &refusal {
                ClixError::GrantBusy { .. } => true,
                _ => false,
            };
            let job = job_of(
                store,
                from,
                argv,
                id,
                JobStatus::Denied { reason: refusal.message() },
            );
            if !busy {
                assert(argv.deep_view()[0] == argv@[0]@);
                if let Err(e) = upsert(store, from.dup(), &argv[0], fresh_id) {
                    return Err(e);
                }
            }
            store.put_job(job.dup());
            Ok(Submission::Denied(job))
        },
    }
}

/// Persist acceptance and reserve permission before starting a process. Duplicate
/// delivery of the same invocation returns its existing state and never reruns it.
pub fn submit_inner(
    store: &mut Store,
    limits: &mut Limits,
    from: &BodyId,
    argv: &Vec<String>,
    id: &str,
    certificate: Option<&Certificate>,
    now: &LocalTime,
    fresh_id: String,
) -> (result: Result<Submission>)
    ensures
        (final(store)@, error::outcome(result)) == submitted(
            old(store)@,
            old(limits).children.taken() < old(limits).children.size(),
            from@,
            argv.deep_view(),
            id@,
            match certificate {
                Some(c) => Some(c@),
                None => None,
            },
            now@,
            fresh_id@,
        ),
        final(limits).children.taken() == old(limits).children.taken() + if error::outcome(
            result,
        ) matches Ok(SubmissionModel::Run(_, _)) {
            1int
        } else {
            0int
        },
        final(limits).children.size() == old(limits).children.size(),
        final(limits).mesh == old(limits).mesh,
        final(limits).mesh_exec == old(limits).mesh_exec,
        final(limits).owner == old(limits).owner,
        final(limits).waiters == old(limits).waiters,
{
    if let Err(e) = crate::limits::invocation(id, argv) {
        return Err(e);
    }
    if let Err(e) = check_certified(store, certificate) {
        return Err(e);
    }
    if let Some(at) = find_job(&store.jobs, id) {
        assert(store@.jobs[at as int] == store.jobs@[at as int]@);
        proof {
            search::lemma_first(store@.jobs, job::job_with_id(id@));
        }
        let existing = &store.jobs[at];
        if let Err(e) = check_same(store, existing, from, argv, certificate) {
            return Err(e);
        }
        let queued: bool = match &existing.status {
            JobStatus::Queued => true,
            JobStatus::WaitingCapacity => true,
            _ => false,
        };
        if !(queued && text_same(&from.0, &store.body_name)) {
            return Ok(Submission::Known(existing.dup()));
        }
    }
    let mut next = store.dup();
    if let Some(c) = certificate {
        if let Err(e) = bind_admission(&mut next, c) {
            return Err(e);
        }
    }
    match accept(&mut next, limits, from, argv, id, now, fresh_id) {
        Ok(submission) => {
            *store = next;
            Ok(submission)
        },
        Err(e) => Err(e),
    }
}

pub fn submit(
    store: &mut Store,
    limits: &mut Limits,
    from: &BodyId,
    argv: &Vec<String>,
    id: &str,
    now: &LocalTime,
    fresh_id: String,
) -> (result: Result<Submission>)
    ensures
        (final(store)@, error::outcome(result)) == submitted(
            old(store)@,
            old(limits).children.taken() < old(limits).children.size(),
            from@,
            argv.deep_view(),
            id@,
            None,
            now@,
            fresh_id@,
        ),
        final(limits).children.taken() == old(limits).children.taken() + if error::outcome(
            result,
        ) matches Ok(SubmissionModel::Run(_, _)) {
            1int
        } else {
            0int
        },
        final(limits).children.size() == old(limits).children.size(),
        final(limits).mesh == old(limits).mesh,
        final(limits).mesh_exec == old(limits).mesh_exec,
        final(limits).owner == old(limits).owner,
        final(limits).waiters == old(limits).waiters,
{
    submit_inner(store, limits, from, argv, id, None, now, fresh_id)
}

/// Submit what a certificate says, bound to the certificate.
pub fn submit_certified(
    store: &mut Store,
    limits: &mut Limits,
    certificate: &Certificate,
    now: &LocalTime,
    fresh_id: String,
) -> (result: Result<Submission>)
    ensures
        (final(store)@, error::outcome(result)) == submitted(
            old(store)@,
            old(limits).children.taken() < old(limits).children.size(),
            certificate@.invocation.from,
            certificate@.invocation.argv,
            certificate@.invocation.id,
            Some(certificate@),
            now@,
            fresh_id@,
        ),
        final(limits).children.taken() == old(limits).children.taken() + if error::outcome(
            result,
        ) matches Ok(SubmissionModel::Run(_, _)) {
            1int
        } else {
            0int
        },
        final(limits).children.size() == old(limits).children.size(),
        final(limits).mesh == old(limits).mesh,
        final(limits).mesh_exec == old(limits).mesh_exec,
        final(limits).owner == old(limits).owner,
        final(limits).waiters == old(limits).waiters,
{
    let i = &certificate.invocation;
    submit_inner(store, limits, &i.from, &i.argv, &i.id, Some(certificate), now, fresh_id)
}

/// How a run ended.
#[derive(Debug, Clone, PartialEq, Eq)]
pub enum RunOutcome {
    /// The exit code, or the signal that ended the process, and its output.
    Exited {
        code: Option<i32>,
        signal: Option<u8>,
        stdout: Vec<u8>,
        stderr: Vec<u8>,
        capture_error: Option<String>,
    },
    NotStarted(String),
    Uncertain(String),
}

#[verifier::ext_equal]
pub enum RunOutcomeModel {
    Exited {
        code: Option<i32>,
        signal: Option<u8>,
        stdout: Seq<u8>,
        stderr: Seq<u8>,
        capture_error: Option<Seq<char>>,
    },
    NotStarted(Seq<char>),
    Uncertain(Seq<char>),
}

impl View for RunOutcome {
    type V = RunOutcomeModel;

    open spec fn view(&self) -> RunOutcomeModel {
        match self {
            RunOutcome::Exited { code, signal, stdout, stderr, capture_error } =>
                RunOutcomeModel::Exited {
                code: *code,
                signal: *signal,
                stdout: stdout@,
                stderr: stderr@,
                capture_error: capture_error.deep_view(),
            },
            RunOutcome::NotStarted(e) => RunOutcomeModel::NotStarted(e@),
            RunOutcome::Uncertain(e) => RunOutcomeModel::Uncertain(e@),
        }
    }
}

/// The number that a shell would give for this end of a process.
pub open spec fn exit_number(code: Option<i32>, signal: Option<u8>) -> i32 {
    match code {
        Some(exit) => exit,
        None => match signal {
            Some(n) => (128 + n) as i32,
            None => 129,
        },
    }
}

/// A finished job as its run left it.
pub open spec fn ended(grant: GrantModel, run: JobModel, end: RunOutcomeModel) -> JobModel {
    match end {
        RunOutcomeModel::Exited { code, signal, stdout, stderr, capture_error } => JobModel {
            status: match capture_error {
                None => JobStatusModel::Done { exit: exit_number(code, signal) },
                Some(reason) => JobStatusModel::Failed {
                    reason: grant.tool + " exited "@ + text::signed_decimal(
                        exit_number(code, signal) as int,
                    ) + ", but output capture failed: "@ + reason,
                },
            },
            stdout,
            stderr,
            ..run
        },
        RunOutcomeModel::NotStarted(e) => JobModel {
            status: JobStatusModel::Failed { reason: "could not run "@ + grant.tool + ": "@ + e },
            ..run
        },
        RunOutcomeModel::Uncertain(e) => JobModel {
            status: JobStatusModel::Uncertain {
                reason: "could not determine "@ + grant.tool + " exit status: "@ + e
                    + ". Not rerunning."@,
            },
            ..run
        },
    }
}

/// Whether a run used its permission: unknown stays reserved.
pub open spec fn succeeded(end: RunOutcomeModel) -> Option<bool> {
    match end {
        RunOutcomeModel::Exited { code, .. } => Some(code == Some(0i32)),
        RunOutcomeModel::NotStarted(_) => Some(false),
        RunOutcomeModel::Uncertain(_) => None,
    }
}

pub open spec fn held_for(tool: Seq<char>, id: Seq<char>) -> spec_fn(GrantModel) -> bool {
    |g: GrantModel| g.tool == tool && g.reservation == Some(id)
}

/// What a run leaves of a single-use grant. A replacement grant is a new owner
/// decision; an older run cannot consume it.
pub open spec fn grants_after(
    grants: Seq<GrantModel>,
    grant: GrantModel,
    id: Seq<char>,
    success: Option<bool>,
) -> Seq<GrantModel> {
    match search::first(grants, held_for(grant.tool, id)) {
        Some(at) if grant.once => match success {
            Some(true) => grants.remove(at),
            Some(false) => grants.update(at, GrantModel { reservation: None, ..grants[at] }),
            None => grants,
        },
        _ => grants,
    }
}

pub open spec fn finished(
    s: StoreModel,
    grant: GrantModel,
    run: JobModel,
    end: RunOutcomeModel,
) -> (StoreModel, Outcome<()>) {
    let job = ended(grant, run, end);
    match search::first(s.jobs, job::job_with_id(run.id)) {
        None => (s, Err(ErrorModel::Protocol("accepted job disappeared"@))),
        Some(at) => (
            StoreModel {
                grants: grants_after(s.grants, grant, run.id, succeeded(end)),
                jobs: s.jobs.update(at, job),
                ..s
            },
            Ok(()),
        ),
    }
}

fn end_job(grant: &Grant, run: Job, end: RunOutcome) -> (job: Job)
    ensures
        job@ == ended(grant@, run@, end@),
{
    let mut job = run;
    match end {
        RunOutcome::Exited { code, signal, stdout, stderr, capture_error } => {
            let exit: i32 = match code {
                Some(exit) => exit,
                None => match signal {
                    Some(n) => 128 + n as i32,
                    None => 129,
                },
            };
            job.status = match capture_error {
                None => JobStatus::Done { exit },
                Some(reason) => JobStatus::Failed {
                    reason: cat5(
                        &grant.tool,
                        " exited ",
                        signed_text(exit).as_str(),
                        ", but output capture failed: ",
                        &reason,
                    ),
                },
            };
            job.stdout = stdout;
            job.stderr = stderr;
        },
        RunOutcome::NotStarted(e) => {
            job.status = JobStatus::Failed {
                reason: cat4("could not run ", &grant.tool, ": ", &e),
            };
        },
        RunOutcome::Uncertain(e) => {
            job.status = JobStatus::Uncertain {
                reason: cat5(
                    "could not determine ",
                    &grant.tool,
                    " exit status: ",
                    &e,
                    ". Not rerunning.",
                ),
            };
        },
    }
    job
}

fn find_held(grants: &Vec<Grant>, tool: &str, id: &str) -> (at: Option<usize>)
    ensures
        (match at {
            Some(i) => i < grants.len() && search::first(grants.deep_view(), held_for(tool@, id@)) == Some(
                i as int,
            ),
            None => search::first(grants.deep_view(), held_for(tool@, id@)) is None,
        }),
{
    let ghost view = grants.deep_view();
    let mut i: usize = 0;
    while i < grants.len()
        invariant
            i <= grants.len(),
            view == grants.deep_view(),
            forall|j: int| 0 <= j < i ==> !held_for(tool@, id@)(#[trigger] view[j]),
        decreases grants.len() - i,
    {
        assert(view[i as int] == grants@[i as int]@);
        let held: bool = match &grants[i].reservation {
            Some(holder) => text_same(holder, id),
            None => false,
        };
        if held && text_same(&grants[i].tool, tool) {
            proof {
                search::lemma_first_at(view, held_for(tool@, id@), i as int);
            }
            return Some(i);
        }
        i += 1;
    }
    proof {
        search::lemma_first_none(view, held_for(tool@, id@));
    }
    None
}

/// Record how a run ended and settle the grant that it held.
pub fn finish(store: &mut Store, grant: &Grant, run: Job, end: RunOutcome) -> (result: Result<()>)
    ensures
        (final(store)@, error::outcome(result)) == finished(old(store)@, grant@, run@, end@),
{
    let ghost start = store@;
    let at: usize = match find_job(&store.jobs, &run.id) {
        Some(at) => at,
        None => return Err(protocol("accepted job disappeared")),
    };
    let success: Option<bool> = match &end {
        RunOutcome::Exited { code, .. } => Some(
            match code {
                Some(exit) => *exit == 0,
                None => false,
            },
        ),
        RunOutcome::NotStarted(_) => Some(false),
        RunOutcome::Uncertain(_) => None,
    };
    if grant.once {
        if let Some(g) = find_held(&store.grants, &grant.tool, &run.id) {
            assert(start.grants[g as int] == store.grants@[g as int]@);
            match success {
                Some(true) => {
                    store.grants.remove(g);
                    assert(store.grants.deep_view() =~= start.grants.remove(g as int));
                },
                Some(false) => {
                    let mut freed = store.grants[g].dup();
                    freed.reservation = None;
                    let ghost item = freed@;
                    store.grants[g] = freed;
                    assert(store.grants.deep_view() =~= start.grants.update(g as int, item));
                },
                None => {},
            }
        }
    }
    let job = end_job(grant, run, end);
    let ghost item = job@;
    store.jobs[at] = job;
    assert(store.jobs.deep_view() =~= start.jobs.update(at as int, item));
    Ok(())
}

pub open spec fn lost_reason(error: ErrorModel) -> Seq<char> {
    "could not persist job completion: "@ + error.message()
        + "; its outcome is uncertain. Not rerunning."@
}

/// A job whose end could not be saved. Durable state still says that it runs, so
/// a restart reports the same uncertainty, and the reserved grant stays reserved.
pub fn lose_completion(store: &mut Store, id: &str, error: &ClixError) -> (reason: String)
    ensures
        reason@ == lost_reason(error@),
        final(store)@ == match search::first(old(store)@.jobs, job::job_with_id(id@)) {
            None => old(store)@,
            Some(at) => StoreModel {
                jobs: old(store)@.jobs.update(
                    at,
                    JobModel {
                        status: JobStatusModel::Uncertain { reason: lost_reason(error@) },
                        ..old(store)@.jobs[at]
                    },
                ),
                ..old(store)@
            },
        },
{
    let ghost start = store@;
    let reason = cat3(
        "could not persist job completion: ",
        error.message().as_str(),
        "; its outcome is uncertain. Not rerunning.",
    );
    if let Some(at) = find_job(&store.jobs, id) {
        assert(start.jobs[at as int] == store.jobs@[at as int]@);
        let mut job = store.jobs[at].dup();
        job.status = JobStatus::Uncertain { reason: reason.dup() };
        let ghost item = job@;
        store.jobs[at] = job;
        assert(store.jobs.deep_view() =~= start.jobs.update(at as int, item));
    }
    reason
}

/// What was read of one output stream, with room for one byte too many.
pub fn captured_stream(bytes: Vec<u8>) -> (result: std::result::Result<Vec<u8>, String>)
    ensures
        (match result {
            Ok(kept) => bytes@.len() <= OUTPUT_STREAM_BYTES && kept@ == bytes@,
            Err(reason) => bytes@.len() > OUTPUT_STREAM_BYTES && reason@
                == "command output exceeds 4 MiB per stream; stopped the command"@,
        }),
{
    if bytes.len() > OUTPUT_STREAM_BYTES {
        Err(owned("command output exceeds 4 MiB per stream; stopped the command"))
    } else {
        Ok(bytes)
    }
}

} // verus!
