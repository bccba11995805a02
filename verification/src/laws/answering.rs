//! What goes over the wire between an owner's client, this machine and its peers: each
//! command under its own name with everything it says, and each reply shown as it is.

use vstd::prelude::*;

use crate::cli::command::{CmdModel, JobCommandModel, PinCommandModel};
use crate::error::{ErrorModel, Outcome};
use crate::json;
use crate::local::message;
use crate::local::owner;
use crate::local::owner::OwnerOp;
use crate::local::reply;
use crate::local::reply::{ClientStepModel, ReplyModel};
use crate::mesh;
use crate::mesh::MeshOp;
use crate::text;
use crate::types::TimestampModel;

verus! {

/// Each operation has its own name, and no other name is one.
pub proof fn law_owner_operations(op: Seq<char>)
    ensures
        ({
            let result: Outcome<OwnerOp> = owner::owner_op_outcome(Some(op));
            match result {
                Ok(OwnerOp::Add) => op == "add"@,
                Ok(OwnerOp::Hands) => op == "hands"@,
                Ok(OwnerOp::Remove) => op == "remove"@,
                Ok(OwnerOp::Log) => op == "log"@,
                Ok(OwnerOp::Status) => op == "status"@,
                Ok(OwnerOp::PairStart) => op == "pair_start"@,
                Ok(OwnerOp::PairJoin) => op == "pair_join"@,
                Ok(OwnerOp::PairAwait) => op == "pair_await"@,
                Ok(OwnerOp::Request) => op == "request"@,
                Ok(OwnerOp::Pending) => op == "pending"@,
                Ok(OwnerOp::AllowRequest) => op == "allow_request"@,
                Ok(OwnerOp::DenyRequest) => op == "deny_request"@,
                Ok(OwnerOp::Exec) => op == "exec"@,
                Ok(OwnerOp::JobInspect) => op == "job_inspect"@,
                Ok(OwnerOp::JobOutput) => op == "job_output"@,
                Ok(OwnerOp::JobRetry) => op == "job_retry"@,
                Ok(OwnerOp::StorageStatus) => op == "storage_status"@,
                Ok(OwnerOp::StoragePrune) => op == "storage_prune"@,
                Ok(OwnerOp::PinOn) => op == "pin_on"@,
                Ok(OwnerOp::PinOff) => op == "pin_off"@,
                Ok(OwnerOp::PinSync) => op == "pin_sync"@,
                Ok(OwnerOp::PinConflicts) => op == "pin_conflicts"@,
                Ok(OwnerOp::PinTakePeer) => op == "pin_take_peer"@,
                Ok(OwnerOp::RecoveryList) => op == "pin_recovery_list"@,
                Ok(OwnerOp::RecoveryInspect) => op == "pin_recovery_inspect"@,
                Ok(OwnerOp::RecoveryExport) => op == "pin_recovery_export"@,
                Ok(OwnerOp::RecoveryResolve) => op == "pin_recovery_resolve"@,
                Ok(OwnerOp::RecoveryDiscard) => op == "pin_recovery_discard"@,
                Err(_) => {
                    &&& op != "add"@ && op != "hands"@ && op != "remove"@ && op != "log"@ && op
                        != "status"@ && op != "pair_start"@ && op != "pair_join"@ && op
                        != "pair_await"@
                    &&& op != "request"@ && op != "pending"@ && op != "allow_request"@ && op
                        != "deny_request"@ && op != "exec"@ && op != "job_inspect"@ && op
                        != "job_output"@ && op != "job_retry"@
                    &&& op != "storage_status"@ && op != "storage_prune"@ && op != "pin_on"@ && op
                        != "pin_off"@ && op != "pin_sync"@ && op != "pin_conflicts"@ && op
                        != "pin_take_peer"@
                    &&& op != "pin_recovery_list"@ && op != "pin_recovery_inspect"@ && op
                        != "pin_recovery_export"@ && op != "pin_recovery_resolve"@ && op
                        != "pin_recovery_discard"@
                },
            }
        }),
        owner::owner_op_outcome(None) is Err,
{
}

/// What a peer may ask for over the mesh, and nothing else: no grant, no decision, no
/// pairing and no recovery.
pub proof fn law_mesh_operations(op: Seq<char>)
    ensures
        match mesh::op_outcome(op) {
            Ok(MeshOp::ExecV2) => op == "exec_v2"@,
            Ok(MeshOp::JobGetV2) => op == "job_get_v2"@,
            Ok(MeshOp::HistoryPage) => op == "history_page"@,
            Ok(MeshOp::Exec) => op == "exec"@,
            Ok(MeshOp::JobGet) => op == "job_get"@,
            Ok(MeshOp::Request) => op == "request"@,
            Ok(MeshOp::PinList) => op == "pin_list"@,
            Ok(MeshOp::PinGet) => op == "pin_get"@,
            Ok(MeshOp::PinPut) => op == "pin_put"@,
            Ok(MeshOp::PinCommit) => op == "pin_commit"@,
            Err(e) => op != "exec_v2"@ && op != "job_get_v2"@ && op != "history_page"@ && op
                != "exec"@ && op != "job_get"@ && op != "request"@ && op != "pin_list"@ && op
                != "pin_get"@ && op != "pin_put"@ && op != "pin_commit"@ && e == ErrorModel::Usage(
                op + " is not allowed over the mesh"@,
            ),
        },
{
}

/// A request travels under its operation's name, and a decision about one request
/// carries that request's ID and no other.
pub proof fn law_requests_carry_their_subject(
    a: Seq<char>,
    b: Seq<char>,
    argv: Seq<Seq<char>>,
    no_wait: bool,
)
    ensures
        ({
            let op = |name: Seq<char>| ("op"@, json::json_string_text(name));
            let plain = |name: Seq<char>, value: Seq<char>| (name, json::json_string_text(value));
            &&& message::cmd_message(CmdModel::Deny { request_id: a }) == Ok::<
                Seq<char>,
                ErrorModel,
            >(json::json_object_text(seq![op("deny_request"@), plain("request_id"@, a)]))
            &&& message::cmd_message(CmdModel::Remove { tool: a }) == Ok::<Seq<char>, ErrorModel>(
                json::json_object_text(seq![op("remove"@), plain("tool"@, a)]),
            )
            &&& message::cmd_message(CmdModel::Request { body: a, tool: b }) == Ok::<
                Seq<char>,
                ErrorModel,
            >(
                json::json_object_text(
                    seq![op("request"@), plain("body"@, a), plain("tool"@, b)],
                ),
            )
            &&& message::cmd_message(CmdModel::Exec { body: a, argv, no_wait }) == Ok::<
                Seq<char>,
                ErrorModel,
            >(
                json::json_object_text(
                    seq![
                        op("exec"@),
                        plain("body"@, a),
                        ("argv"@, json::json_list(json::text_items(argv))),
                        (
                            "no_wait"@,
                            if no_wait {
                                "true"@
                            } else {
                                "false"@
                            },
                        ),
                    ],
                ),
            )
            &&& message::cmd_message(CmdModel::Job(JobCommandModel::Inspect { job_id: a })) == Ok::<
                Seq<char>,
                ErrorModel,
            >(json::json_object_text(seq![op("job_inspect"@), plain("job_id"@, a)]))
            &&& message::cmd_message(CmdModel::Job(JobCommandModel::Retry { job_id: a })) == Ok::<
                Seq<char>,
                ErrorModel,
            >(json::json_object_text(seq![op("job_retry"@), plain("job_id"@, a)]))
            &&& message::cmd_message(
                CmdModel::Job(JobCommandModel::Output { job_id: a, stderr: no_wait }),
            ) == Ok::<Seq<char>, ErrorModel>(
                json::json_object_text(
                    seq![
                        op("job_output"@),
                        plain("job_id"@, a),
                        (
                            "stderr"@,
                            if no_wait {
                                "true"@
                            } else {
                                "false"@
                            },
                        ),
                    ],
                ),
            )
            &&& message::cmd_message(CmdModel::Hands) == Ok::<Seq<char>, ErrorModel>(
                json::json_object_text(seq![op("hands"@)]),
            )
            &&& message::cmd_message(CmdModel::Log) == Ok::<Seq<char>, ErrorModel>(
                json::json_object_text(seq![op("log"@)]),
            )
            &&& message::cmd_message(CmdModel::Pending) == Ok::<Seq<char>, ErrorModel>(
                json::json_object_text(seq![op("pending"@)]),
            )
            &&& message::cmd_message(CmdModel::Status) == Ok::<Seq<char>, ErrorModel>(
                json::json_object_text(seq![op("status"@)]),
            )
            &&& message::cmd_message(CmdModel::Daemon) is Err
            &&& message::cmd_message(CmdModel::Install) is Err
        }),
{
}

/// The terms of a grant travel whole: machines, single use, duration, end, days, dates,
/// times and working days, each under its name.
pub proof fn law_terms_travel(
    subject: Seq<char>,
    allow: Seq<Seq<char>>,
    once: bool,
    for_dur: Option<u64>,
    until: Option<TimestampModel>,
    days: Seq<Seq<char>>,
    dates: Seq<u8>,
    from: Option<Seq<char>>,
    to: Option<Seq<char>>,
    weekdays: bool,
    args: Option<Seq<Seq<Seq<char>>>>,
)
    ensures
        ({
            let truth = |b: bool|
                if b {
                    "true"@
                } else {
                    "false"@
                };
            let terms = seq![
                ("allow"@, json::json_list(json::text_items(allow))),
                ("once"@, truth(once)),
                (
                    "for_secs"@,
                    if for_dur is Some {
                        text::decimal(for_dur->0 as nat)
                    } else {
                        "null"@
                    },
                ),
                (
                    "until"@,
                    if until is Some {
                        text::decimal(
                            if until->0.secs < 0 {
                                0
                            } else {
                                until->0.secs as nat
                            },
                        )
                    } else {
                        "null"@
                    },
                ),
                ("days"@, json::json_list(json::text_items(days))),
                ("dates"@, json::json_list(json::byte_items(dates))),
                (
                    "from"@,
                    if from is Some {
                        json::json_string_text(from->0)
                    } else {
                        "null"@
                    },
                ),
                (
                    "to"@,
                    if to is Some {
                        json::json_string_text(to->0)
                    } else {
                        "null"@
                    },
                ),
                ("weekdays"@, truth(weekdays)),
            ];
            &&& message::cmd_message(
                CmdModel::Add {
                    tool: subject,
                    allow,
                    once,
                    for_dur,
                    until,
                    days,
                    dates,
                    from,
                    to,
                    weekdays,
                    args,
                },
            ) == Ok::<Seq<char>, ErrorModel>(
                json::json_object_text(
                    seq![
                        ("op"@, json::json_string_text("add"@)),
                        ("tool"@, json::json_string_text(subject)),
                        (
                            "args"@,
                            if args is Some {
                                json::json_list(json::list_items(args->0))
                            } else {
                                "null"@
                            },
                        ),
                    ] + terms,
                ),
            )
            &&& message::cmd_message(
                CmdModel::Allow {
                    request_id: subject,
                    allow,
                    once,
                    for_dur,
                    until,
                    days,
                    dates,
                    from,
                    to,
                    weekdays,
                },
            ) == Ok::<Seq<char>, ErrorModel>(
                json::json_object_text(
                    seq![
                        ("op"@, json::json_string_text("allow_request"@)),
                        ("request_id"@, json::json_string_text(subject)),
                    ] + terms,
                ),
            )
        }),
{
    let truth = |b: bool|
        if b {
            "true"@
        } else {
            "false"@
        };
    let terms = seq![
        ("allow"@, json::json_list(json::text_items(allow))),
        ("once"@, truth(once)),
        (
            "for_secs"@,
            if for_dur is Some {
                text::decimal(for_dur->0 as nat)
            } else {
                "null"@
            },
        ),
        (
            "until"@,
            if until is Some {
                text::decimal(
                    if until->0.secs < 0 {
                        0
                    } else {
                        until->0.secs as nat
                    },
                )
            } else {
                "null"@
            },
        ),
        ("days"@, json::json_list(json::text_items(days))),
        ("dates"@, json::json_list(json::byte_items(dates))),
        (
            "from"@,
            if from is Some {
                json::json_string_text(from->0)
            } else {
                "null"@
            },
        ),
        (
            "to"@,
            if to is Some {
                json::json_string_text(to->0)
            } else {
                "null"@
            },
        ),
        ("weekdays"@, truth(weekdays)),
    ];
    assert(message::term_fields(allow, once, for_dur, until, days, dates, from, to, weekdays)
        =~= terms);
}

/// A refused request fails with the words of the refusal. A client that waits is told
/// that its command waits; any other reply ends the exchange.
pub proof fn law_client_steps(said: ReplyModel, no_wait: bool)
    ensures
        ({
            let step = reply::client_step_of(said, no_wait);
            &&& said.ok == Some(false) && said.error is Some ==> step == ClientStepModel::Failed(
                ErrorModel::Io(said.error->0),
            )
            &&& said.ok == Some(false) ==> step is Failed
            &&& said.ok != Some(false) && said.status == Some("waiting"@) && !no_wait ==> step
                == ClientStepModel::Waiting(said.waiting)
            &&& said.ok != Some(false) && (said.status != Some("waiting"@) || no_wait) ==> step
                is Done
        }),
{
}

/// The outcome of a run is shown as it is: both streams of its output, byte for byte,
/// and its exit code. A run that was refused or failed says why and shows no output.
pub proof fn law_outcome_is_shown(
    said: ReplyModel,
    body: Seq<char>,
    argv: Seq<Seq<char>>,
    no_wait: bool,
)
    ensures
        ({
            let printed = reply::shown(CmdModel::Exec { body, argv, no_wait }, said);
            &&& said.status == Some("done"@) ==> {
                &&& printed.raw_out == said.stdout
                &&& printed.raw_err == said.stderr
                &&& printed.exit == said.exit
                &&& printed.failure is None
                &&& printed.out.len() == 0 && printed.err.len() == 0
            }
            &&& said.status == Some("denied"@) || said.status == Some("failed"@) || said.status
                == Some("uncertain"@) ==> {
                &&& printed.failure is Some
                &&& said.reason is Some ==> printed.failure == Some(
                    ErrorModel::Io(said.reason->0),
                )
                &&& printed.raw_out.len() == 0 && printed.raw_err.len() == 0 && printed.exit is None
            }
            &&& said.status == Some("waiting"@) ==> {
                &&& said.waiting is Some ==> printed.err == seq![said.waiting->0]
                &&& no_wait && said.job_id is Some ==> printed.out == seq![said.job_id->0]
                &&& !no_wait ==> printed.out.len() == 0
                &&& printed.failure is None && printed.exit is None
            }
            &&& said.status == Some("running"@) || said.status == Some("queued"@) ==> {
                &&& said.job_id is Some ==> printed.out == seq![said.job_id->0]
                &&& printed.failure is None && printed.exit is None
            }
        }),
{
    reveal_strlit("done");
    reveal_strlit("denied");
    reveal_strlit("failed");
    reveal_strlit("uncertain");
    reveal_strlit("waiting");
    reveal_strlit("running");
    reveal_strlit("queued");
    assert("done"@.len() == 4 && "denied"@.len() == 6 && "failed"@.len() == 6 && "uncertain"@.len()
        == 9 && "waiting"@.len() == 7 && "running"@.len() == 7 && "queued"@.len() == 6);
    assert("denied"@[0] == 'd' && "failed"@[0] == 'f' && "queued"@[0] == 'q' && "waiting"@[0] == 'w'
        && "running"@[0] == 'r');
}

/// Saved output is written byte for byte; lists are printed line by line; pending
/// requests say who wants what under which ID.
pub proof fn law_replies_are_shown(said: ReplyModel, id: Seq<char>, stderr: bool, i: int)
    ensures
        reply::shown(CmdModel::Job(JobCommandModel::Output { job_id: id, stderr }), said).raw_out
            == said.stdout,
        reply::shown(CmdModel::Hands, said).out == said.lines,
        reply::shown(CmdModel::Log, said).out == said.lines,
        reply::shown(CmdModel::Pending, said).out.len() == said.requests.len(),
        0 <= i < said.requests.len() && said.requests[i].from is Some && said.requests[i].tool
            is Some ==> reply::shown(CmdModel::Pending, said).out[i] == said.requests[i].id + " "@
            + said.requests[i].from->0 + " wants "@ + said.requests[i].tool->0,
        said.body is Some ==> reply::shown(CmdModel::Status, said).out == seq![said.body->0]
            + said.peers,
        said.job_id is Some ==> reply::shown(
            CmdModel::Job(JobCommandModel::Retry { job_id: id }),
            said,
        ).out == seq![said.job_id->0],
        said.phrase is Some ==> reply::shown(
            CmdModel::Pair { phrase: None, name: None },
            said,
        ).out == seq!["pair with: "@ + said.phrase->0],
        said.synced == Some(false) ==> reply::shown(
            CmdModel::Pin(PinCommandModel::Sync { body: id }),
            said,
        ).failure is Some,
        said.synced != Some(false) ==> reply::shown(
            CmdModel::Pin(PinCommandModel::Sync { body: id }),
            said,
        ).failure is None,
{
}

} // verus!
