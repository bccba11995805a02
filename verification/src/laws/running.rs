//! A command from its submission to its end, read off the store: what is refused,
//! what starts, and what its run leaves behind.

use vstd::prelude::*;

use crate::error::{ErrorModel, Outcome};
use crate::exec;
use crate::exec::{CommandLineModel, RunOutcomeModel, SubmissionModel};
use crate::grant;
use crate::history::CertificateModel;
use crate::history::merge;
use crate::history::wire;
use crate::job;
use crate::limits;
use crate::search;
use crate::store::StoreModel;
use crate::text;
use crate::types::{GrantModel, JobModel, JobStatusModel, LocalTimeModel};

verus! {

/// The run of a job that the store holds ends with exactly the output that the
/// process wrote and with its exit code, or what a shell reports for a signal.
/// Where nothing ran, or nobody knows how it went, the job says so and no more.
/// Every other job stays as it was.
pub proof fn law_end_is_recorded(
    s: StoreModel,
    grant: GrantModel,
    run: JobModel,
    end: RunOutcomeModel,
    at: int,
)
    requires
        0 <= at < s.jobs.len(),
        s.jobs[at].id == run.id,
        forall|j: int| 0 <= j < at ==> (#[trigger] s.jobs[j]).id != run.id,
    ensures
        ({
            let next = exec::finished(s, grant, run, end).0;
            let job = next.jobs[at];
            &&& exec::finished(s, grant, run, end).1 is Ok
            &&& next.jobs.len() == s.jobs.len()
            &&& forall|j: int|
                0 <= j < s.jobs.len() && j != at ==> #[trigger] next.jobs[j] == s.jobs[j]
            &&& job.id == run.id && job.body == run.body && job.argv == run.argv && job.from
                == run.from
            &&& end matches RunOutcomeModel::Exited { code, signal, stdout, stderr, capture_error }
                ==> {
                &&& job.stdout == stdout
                &&& job.stderr == stderr
                &&& capture_error is None && code is Some ==> job.status == (JobStatusModel::Done {
                    exit: code->0,
                })
                &&& capture_error is None && code is None && signal is Some ==> job.status is Done
                    && job.status->exit == 128 + signal->0
                &&& capture_error is None && code is None && signal is None ==> job.status == (
                JobStatusModel::Done { exit: 129 })
                &&& capture_error is Some && code is Some ==> job.status == (
                JobStatusModel::Failed {
                    reason: grant.tool + " exited "@ + text::signed_decimal(code->0 as int)
                        + ", but output capture failed: "@ + capture_error->0,
                })
                &&& capture_error is Some ==> job.status is Failed
            }
            &&& end matches RunOutcomeModel::NotStarted(e) ==> {
                &&& job.stdout == run.stdout && job.stderr == run.stderr
                &&& job.status == (JobStatusModel::Failed {
                    reason: "could not run "@ + grant.tool + ": "@ + e,
                })
            }
            &&& end matches RunOutcomeModel::Uncertain(e) ==> {
                &&& job.stdout == run.stdout && job.stderr == run.stderr
                &&& job.status == (JobStatusModel::Uncertain {
                    reason: "could not determine "@ + grant.tool + " exit status: "@ + e
                        + ". Not rerunning."@,
                })
            }
            &&& next == (StoreModel { jobs: next.jobs, grants: next.grants, ..s })
        }),
{
    search::lemma_first_at(s.jobs, job::job_with_id(run.id), at);
}

/// The end of a run that no job of the store stands for changes nothing.
pub proof fn law_end_of_unknown_run(
    s: StoreModel,
    grant: GrantModel,
    run: JobModel,
    end: RunOutcomeModel,
)
    requires
        forall|j: int| 0 <= j < s.jobs.len() ==> (#[trigger] s.jobs[j]).id != run.id,
    ensures
        exec::finished(s, grant, run, end) == (
            s,
            Err::<(), ErrorModel>(ErrorModel::Protocol("accepted job disappeared"@)),
        ),
{
    search::lemma_first_none(s.jobs, job::job_with_id(run.id));
}

/// A single-use grant is gone once its run has exited with zero. Any other exit,
/// and a run that never started, give it back for another try. An unknown outcome
/// leaves it with the run. A lasting grant is never touched.
pub proof fn law_end_settles_grant(
    s: StoreModel,
    grant: GrantModel,
    run: JobModel,
    end: RunOutcomeModel,
    at: int,
)
    requires
        exists|j: int| 0 <= j < s.jobs.len() && (#[trigger] s.jobs[j]).id == run.id,
        0 <= at < s.grants.len(),
        s.grants[at].tool == grant.tool,
        s.grants[at].reservation == Some(run.id),
        forall|j: int|
            0 <= j < at ==> !((#[trigger] s.grants[j]).tool == grant.tool && s.grants[j].reservation
                == Some(run.id)),
    ensures
        ({
            let next = exec::finished(s, grant, run, end).0.grants;
            let ok = end matches RunOutcomeModel::Exited { code, .. } && code == Some(0i32);
            &&& !grant.once || end is Uncertain ==> next == s.grants
            &&& grant.once && ok ==> next == s.grants.remove(at)
            &&& grant.once && !ok && !(end is Uncertain) ==> next == s.grants.update(
                at,
                GrantModel { reservation: None, ..s.grants[at] },
            )
        }),
{
    search::lemma_first(s.jobs, job::job_with_id(run.id));
    search::lemma_first_at(s.grants, exec::held_for(grant.tool, run.id), at);
}

/// The granted program itself is run, under the tool's name, with every argument
/// as it came; anything but the granted tool is refused.
pub proof fn law_command_runs_granted_binary(grant: GrantModel, argv: Seq<Seq<char>>)
    ensures
        ({
            let line: Outcome<CommandLineModel> = exec::command_outcome(grant, argv);
            &&& line is Ok <==> argv.len() > 0 && argv[0] == grant.tool
            &&& line is Ok ==> {
                &&& line->Ok_0.program == grant.binary
                &&& line->Ok_0.arg0 == argv[0]
                &&& line->Ok_0.args.len() == argv.len() - 1
                &&& forall|i: int|
                    0 <= i < argv.len() - 1 ==> #[trigger] line->Ok_0.args[i] == argv[i + 1]
            }
        }),
{
}

/// A command that nobody submitted before starts at once where a place is free and
/// the tool's grant serves the machine that asks with these arguments. The store
/// then has the running job, and a single-use grant is held for it.
pub proof fn law_granted_command_starts(
    s: StoreModel,
    from: Seq<char>,
    argv: Seq<Seq<char>>,
    id: Seq<char>,
    now: LocalTimeModel,
    fresh_id: Seq<char>,
    at: int,
)
    requires
        limits::invocation_outcome(id, argv) is Ok,
        forall|j: int| 0 <= j < s.jobs.len() ==> (#[trigger] s.jobs[j]).id != id,
        0 <= at < s.grants.len(),
        s.grants[at].tool == argv[0],
        forall|j: int| 0 <= j < at ==> (#[trigger] s.grants[j]).tool != argv[0],
        s.grants[at].reservation is None,
        s.grants[at].allow_from matches Some(names) ==> exists|i: int|
            0 <= i < names.len() && #[trigger] names[i] == from,
        s.grants[at].until matches Some(until) ==> until.secs > now.instant.secs || (until.secs
            == now.instant.secs && until.nanos >= now.instant.nanos),
        s.grants[at].schedule matches Some(schedule) ==> schedule.open_at(now),
        s.grants[at].args matches Some(lists) ==> exists|i: int|
            0 <= i < lists.len() && #[trigger] lists[i] == argv.skip(1),
    ensures
        ({
            let grant = s.grants[at];
            let job = JobModel {
                id,
                body: s.body_name,
                argv,
                from,
                status: JobStatusModel::Running,
                stdout: Seq::empty(),
                stderr: Seq::empty(),
            };
            let grants = if grant.once {
                s.grants.update(at, GrantModel { reservation: Some(id), ..grant })
            } else {
                s.grants
            };
            &&& exec::submitted(s, true, from, argv, id, None, now, fresh_id) == (
                StoreModel { jobs: s.jobs.push(job), grants, ..s },
                Ok::<SubmissionModel, ErrorModel>(SubmissionModel::Run(job, grant)),
            )
            &&& exec::submitted(s, false, from, argv, id, None, now, fresh_id) == (
                s,
                Err::<SubmissionModel, ErrorModel>(
                    ErrorModel::Capacity("execution slots are busy; waiting for capacity"@),
                ),
            )
        }),
{
    search::lemma_first_none(s.jobs, job::job_with_id(id));
    search::lemma_first_at(s.grants, grant::grant_of_tool(argv[0]), at);
    let grant = s.grants[at];
    assert(grant::check_args_outcome(s, argv, from, now) == Ok::<GrantModel, ErrorModel>(grant));
}

/// The same with a certificate that is in order: the same run starts, and the store
/// besides has the certificate.
pub proof fn law_certified_command_starts(
    s: StoreModel,
    from: Seq<char>,
    argv: Seq<Seq<char>>,
    id: Seq<char>,
    c: CertificateModel,
    now: LocalTimeModel,
    fresh_id: Seq<char>,
)
    requires
        forall|j: int| 0 <= j < s.jobs.len() ==> (#[trigger] s.jobs[j]).id != id,
        exec::certified_outcome(s, Some(c)) is Ok,
        merge::admitted(s, c).1 is Ok,
        exec::submitted(s, true, from, argv, id, None, now, fresh_id).1 matches Ok(
            SubmissionModel::Run(_, _),
        ),
    ensures
        ({
            let plain = exec::submitted(s, true, from, argv, id, None, now, fresh_id);
            let signed = exec::submitted(s, true, from, argv, id, Some(c), now, fresh_id);
            &&& signed.1 == plain.1
            &&& signed.0.jobs == plain.0.jobs
            &&& signed.0.grants == plain.0.grants
            &&& signed.0.requests == s.requests
            &&& signed.0.history == merge::admitted(s, c).0.history
            &&& signed.0.job_certificates == merge::admitted(s, c).0.job_certificates
        }),
{
    search::lemma_first_none(s.jobs, job::job_with_id(id));
}

/// A certificate that comes with a command must count, must be its asker's own and must
/// name this machine as the one to run it. A command without one needs none.
pub proof fn law_certificate_names_this_machine(
    s: StoreModel,
    c: CertificateModel,
    free: bool,
    from: Seq<char>,
    argv: Seq<Seq<char>>,
    id: Seq<char>,
    now: LocalTimeModel,
    fresh_id: Seq<char>,
)
    requires
        forall|j: int| 0 <= j < s.jobs.len() ==> (#[trigger] s.jobs[j]).id != id,
    ensures
        exec::certified_outcome(s, Some(c)) is Ok <==> wire::validate_invocation_outcome(s, c) is Ok
            && c.invocation.legacy_observer is None && c.invocation.body == s.body_name,
        exec::certified_outcome(s, None) is Ok,
        wire::validate_invocation_outcome(s, c) is Err || c.invocation.body != s.body_name
            ==> exec::submitted(s, free, from, argv, id, Some(c), now, fresh_id).0 == s
            && exec::submitted(s, free, from, argv, id, Some(c), now, fresh_id).1 is Err,
{
    search::lemma_first_none(s.jobs, job::job_with_id(id));
}

/// A new command that the grants do not allow is recorded as denied, with the
/// refusal as its reason and no output, and no grant changes. The owner finds a
/// request of that machine for that tool, unless a run merely has the grant in use.
pub proof fn law_refused_command_asks(
    s: StoreModel,
    free: bool,
    from: Seq<char>,
    argv: Seq<Seq<char>>,
    id: Seq<char>,
    now: LocalTimeModel,
    fresh_id: Seq<char>,
)
    requires
        limits::invocation_outcome(id, argv) is Ok,
        forall|j: int| 0 <= j < s.jobs.len() ==> (#[trigger] s.jobs[j]).id != id,
        grant::check_args_outcome(s, argv, from, now) is Err,
    ensures
        ({
            let refusal = grant::check_args_outcome(s, argv, from, now)->Err_0;
            let (next, result) = exec::submitted(s, free, from, argv, id, None, now, fresh_id);
            let job = JobModel {
                id,
                body: s.body_name,
                argv,
                from,
                status: JobStatusModel::Denied { reason: refusal.message() },
                stdout: Seq::empty(),
                stderr: Seq::empty(),
            };
            &&& result == Ok::<SubmissionModel, ErrorModel>(SubmissionModel::Denied(job))
            &&& next.jobs == s.jobs.push(job)
            &&& next.grants == s.grants
            &&& refusal is GrantBusy ==> next.requests == s.requests
            &&& !(refusal is GrantBusy) ==> exists|i: int|
                0 <= i < next.requests.len() && (#[trigger] next.requests[i]).from == from
                    && next.requests[i].tool == argv[0] && next.requests[i].once_suggested
        }),
{
    search::lemma_first_none(s.jobs, job::job_with_id(id));
    let refusal = grant::check_args_outcome(s, argv, from, now)->Err_0;
    if !(refusal is GrantBusy) {
        let rows = crate::request::upserted(s, from, argv[0], fresh_id).0.requests;
        let n = s.requests.len() as int;
        crate::laws::grants::lemma_last_row(s.requests, from, argv[0], n);
        let last = crate::request::last_row(s.requests, from, argv[0], n);
        let i = if last is Some {
            last->0
        } else {
            n
        };
        let next = exec::submitted(s, free, from, argv, id, None, now, fresh_id).0;
        assert(limits::tool_outcome(argv[0]) is Ok);
        assert(next.requests == rows);
        assert(next.requests[i].from == from && next.requests[i].tool == argv[0]
            && next.requests[i].once_suggested);
    }
}

/// An ID stands for one invocation. The same machine, tool and arguments get the
/// job that is there; anything else under that ID is refused. Only a job of this
/// machine's own that still waits is taken up.
pub proof fn law_known_id(
    s: StoreModel,
    free: bool,
    from: Seq<char>,
    argv: Seq<Seq<char>>,
    id: Seq<char>,
    now: LocalTimeModel,
    fresh_id: Seq<char>,
    at: int,
)
    requires
        limits::invocation_outcome(id, argv) is Ok,
        0 <= at < s.jobs.len(),
        s.jobs[at].id == id,
        forall|j: int| 0 <= j < at ==> (#[trigger] s.jobs[j]).id != id,
    ensures
        ({
            let job = s.jobs[at];
            let same = job.from == from && job.body == s.body_name && job.argv == argv;
            let waits = from == s.body_name && (job.status is Queued || job.status
                is WaitingCapacity);
            let (next, result) = exec::submitted(s, free, from, argv, id, None, now, fresh_id);
            &&& !same ==> (next, result) == (
                s,
                Err::<SubmissionModel, ErrorModel>(
                    ErrorModel::Protocol("job ID belongs to a different invocation"@),
                ),
            )
            &&& same && !waits ==> (next, result) == (
                s,
                Ok::<SubmissionModel, ErrorModel>(SubmissionModel::Known(job)),
            )
            &&& same && waits ==> !(result matches Ok(SubmissionModel::Known(_)))
            &&& same && waits && result is Ok ==> {
                &&& next.jobs.len() == s.jobs.len()
                &&& next.jobs[at].id == id && next.jobs[at].argv == argv && next.jobs[at].from
                    == from
                &&& next.jobs[at].status is Running || next.jobs[at].status is Denied
                &&& forall|j: int|
                    0 <= j < s.jobs.len() && j != at ==> #[trigger] next.jobs[j] == s.jobs[j]
            }
        }),
{
    search::lemma_first_at(s.jobs, job::job_with_id(id), at);
}

/// A command is admitted for examination exactly within these bounds.
pub proof fn law_bounds_of_a_command(id: Seq<char>, argv: Seq<Seq<char>>)
    ensures
        limits::invocation_outcome(id, argv) is Ok ==> {
            &&& 1 <= id.len() && text::byte_len(id) <= 128 && !id.contains('\0')
            &&& 1 <= argv.len() <= 256
            &&& 1 <= argv[0].len() && text::byte_len(argv[0]) <= 4096
            &&& forall|i: int| 0 <= i < argv.len() ==> !(#[trigger] argv[i]).contains('\0')
            &&& limits::argv_bytes(argv, argv.len() as int) <= 65536
        },
        1 <= id.len() && text::byte_len(id) <= 128 && !id.contains('\0') && 1 <= argv.len() <= 256
            && 1 <= argv[0].len() && text::byte_len(argv[0]) <= 4096 && (forall|i: int|
            0 <= i < argv.len() ==> !(#[trigger] argv[i]).contains('\0')) && limits::argv_bytes(
            argv,
            argv.len() as int,
        ) <= 65536 ==> limits::invocation_outcome(id, argv) is Ok,
{
    lemma_arguments(argv, 0);
}

/// Bytes only add up.
proof fn lemma_argv_bytes_grow(argv: Seq<Seq<char>>, i: int, j: int)
    requires
        0 <= i <= j,
    ensures
        limits::argv_bytes(argv, i) <= limits::argv_bytes(argv, j),
    decreases j - i,
{
    if i < j {
        lemma_argv_bytes_grow(argv, i, j - 1);
    }
}

proof fn lemma_arguments(argv: Seq<Seq<char>>, i: int)
    requires
        0 <= i <= argv.len(),
    ensures
        limits::arguments_outcome(argv, i) is Ok <==> (forall|j: int|
            i <= j < argv.len() ==> !(#[trigger] argv[j]).contains('\0')) && (i < argv.len()
            ==> limits::argv_bytes(argv, argv.len() as int) <= 65536),
    decreases argv.len() - i,
{
    if i < argv.len() {
        lemma_arguments(argv, i + 1);
        lemma_argv_bytes_grow(argv, i + 1, argv.len() as int);
    }
}

} // verus!
