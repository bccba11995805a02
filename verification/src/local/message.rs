//! Commands as requests to the owner socket, one JSON text each.

use vstd::prelude::*;

use crate::cli::{Cmd, JobCommand, PinCommand, RecoveryCommand, StorageCommand};
use crate::cli::command::{
    CmdModel, JobCommandModel, PinCommandModel, RecoveryCommandModel, StorageCommandModel,
};
use crate::error;
use crate::error::{usage, ErrorModel, Outcome, Result};
use crate::json;
use crate::json::{
    json_bool, json_bytes, json_object, json_optional, json_optional_number, json_string,
    json_text_lists, json_texts,
};
use crate::scan;
use crate::scan::replace_char;
use crate::text;
use crate::text::{decimal_text, owned};
use crate::types::{Timestamp, TimestampModel};

verus! {

/// Whole seconds since the epoch; an earlier moment counts as the epoch.
pub open spec fn epoch_seconds(t: TimestampModel) -> u64 {
    if t.secs < 0 {
        0
    } else {
        t.secs as u64
    }
}

pub fn system_time_secs(t: &Timestamp) -> (secs: u64)
    ensures
        secs == epoch_seconds(t@),
{
    if t.secs < 0 {
        0
    } else {
        t.secs as u64
    }
}

pub open spec fn named_op(op: Seq<char>) -> (Seq<char>, Seq<char>) {
    ("op"@, json::json_string_text(op))
}

/// An operation with nothing to say.
pub open spec fn bare(op: Seq<char>) -> Seq<char> {
    json::json_object_text(seq![named_op(op)])
}

/// An operation on one thing.
pub open spec fn single(op: Seq<char>, name: Seq<char>, value: Seq<char>) -> Seq<char> {
    json::json_object_text(seq![named_op(op), (name, json::json_string_text(value))])
}

fn bare_text(op: &str) -> (json: String)
    ensures
        json@ == bare(op@),
{
    let fields: Vec<(&str, String)> = vec![("op", json_string(op))];
    assert(json::named_fields(fields@) =~= seq![named_op(op@)]);
    json_object(&fields)
}

fn single_text(op: &str, name: &str, value: &str) -> (json: String)
    ensures
        json@ == single(op@, name@, value@),
{
    let fields: Vec<(&str, String)> = vec![("op", json_string(op)), (name, json_string(value))];
    assert(json::named_fields(fields@) =~= seq![named_op(op@), (name@, json::json_string_text(value@))]);
    json_object(&fields)
}

/// The terms of a grant, as they follow an operation's own fields.
pub open spec fn term_fields(
    allow: Seq<Seq<char>>,
    once: bool,
    for_dur: Option<u64>,
    until: Option<TimestampModel>,
    days: Seq<Seq<char>>,
    dates: Seq<u8>,
    from: Option<Seq<char>>,
    to: Option<Seq<char>>,
    weekdays: bool,
) -> Seq<(Seq<char>, Seq<char>)> {
    seq![
        ("allow"@, json::json_list(json::text_items(allow))),
        ("once"@, json::json_bool_text(once)),
        ("for_secs"@, json::json_optional_number_text(for_dur)),
        ("until"@, json::json_optional_number_text(
            match until {
                Some(t) => Some(epoch_seconds(t)),
                None => None,
            },
        )),
        ("days"@, json::json_list(json::text_items(days))),
        ("dates"@, json::json_list(json::byte_items(dates))),
        ("from"@, json::json_optional_text(from)),
        ("to"@, json::json_optional_text(to)),
        ("weekdays"@, json::json_bool_text(weekdays)),
    ]
}

fn push_terms<'a>(
    fields: &mut Vec<(&'a str, String)>,
    allow: &Vec<String>,
    once: bool,
    for_dur: Option<u64>,
    until: &Option<Timestamp>,
    days: &Vec<String>,
    dates: &Vec<u8>,
    from: &Option<String>,
    to: &Option<String>,
    weekdays: bool,
)
    ensures
        json::named_fields(final(fields)@) == json::named_fields(old(fields)@) + term_fields(
            allow.deep_view(),
            once,
            for_dur,
            until.deep_view(),
            days.deep_view(),
            dates@,
            from.deep_view(),
            to.deep_view(),
            weekdays,
        ),
{
    let ghost before = json::named_fields(fields@);
    let until_secs: Option<u64> = match until {
        Some(t) => Some(system_time_secs(t)),
        None => None,
    };
    fields.push(("allow", json_texts(allow)));
    fields.push(("once", json_bool(once)));
    fields.push(("for_secs", json_optional_number(for_dur)));
    fields.push(("until", json_optional_number(until_secs)));
    fields.push(("days", json_texts(days)));
    fields.push(("dates", json_bytes(dates)));
    fields.push(("from", json_optional(from.as_ref())));
    fields.push(("to", json_optional(to.as_ref())));
    fields.push(("weekdays", json_bool(weekdays)));
    assert(json::named_fields(fields@) =~= before + term_fields(
        allow.deep_view(),
        once,
        for_dur,
        until.deep_view(),
        days.deep_view(),
        dates@,
        from.deep_view(),
        to.deep_view(),
        weekdays,
    ));
}

pub open spec fn args_json(args: Option<Seq<Seq<Seq<char>>>>) -> Seq<char> {
    match args {
        Some(lists) => json::json_list(json::list_items(lists)),
        None => "null"@,
    }
}

pub open spec fn job_message(command: JobCommandModel) -> Seq<char> {
    match command {
        JobCommandModel::Inspect { job_id } => single("job_inspect"@, "job_id"@, job_id),
        JobCommandModel::Output { job_id, stderr } => json::json_object_text(
            seq![
                named_op("job_output"@),
                ("job_id"@, json::json_string_text(job_id)),
                ("stderr"@, json::json_bool_text(stderr)),
            ],
        ),
        JobCommandModel::Retry { job_id } => single("job_retry"@, "job_id"@, job_id),
    }
}

fn job_text(command: &JobCommand) -> (json: String)
    ensures
        json@ == job_message(command@),
{
    match command {
        JobCommand::Inspect { job_id } => single_text("job_inspect", "job_id", job_id),
        JobCommand::Output { job_id, stderr } => {
            let fields: Vec<(&str, String)> = vec![
                ("op", json_string("job_output")),
                ("job_id", json_string(job_id)),
                ("stderr", json_bool(*stderr)),
            ];
            assert(json::named_fields(fields@) =~= seq![
                named_op("job_output"@),
                ("job_id"@, json::json_string_text(job_id@)),
                ("stderr"@, json::json_bool_text(*stderr)),
            ]);
            json_object(&fields)
        },
        JobCommand::Retry { job_id } => single_text("job_retry", "job_id", job_id),
    }
}

pub open spec fn storage_message(command: StorageCommandModel) -> Seq<char> {
    match command {
        StorageCommandModel::Status => bare("storage_status"@),
        StorageCommandModel::Prune { keep_output_jobs } => json::json_object_text(
            seq![
                named_op("storage_prune"@),
                ("keep_output_jobs"@, text::decimal(keep_output_jobs as nat)),
            ],
        ),
    }
}

fn storage_text(command: &StorageCommand) -> (json: String)
    ensures
        json@ == storage_message(command@),
{
    match command {
        StorageCommand::Status => bare_text("storage_status"),
        StorageCommand::Prune { keep_output_jobs } => {
            let fields: Vec<(&str, String)> = vec![
                ("op", json_string("storage_prune")),
                ("keep_output_jobs", decimal_text(*keep_output_jobs as u64)),
            ];
            assert(json::named_fields(fields@) =~= seq![
                named_op("storage_prune"@),
                ("keep_output_jobs"@, text::decimal(*keep_output_jobs as nat)),
            ]);
            json_object(&fields)
        },
    }
}

/// An inspection or an explicit recovery. A choice travels with underscores.
pub open spec fn pin_message(command: PinCommandModel) -> Seq<char> {
    match command {
        PinCommandModel::On => bare("pin_on"@),
        PinCommandModel::Off => bare("pin_off"@),
        PinCommandModel::Sync { body } => single("pin_sync"@, "body"@, body),
        PinCommandModel::Conflicts { body } => single("pin_conflicts"@, "body"@, body),
        PinCommandModel::TakePeer { body, path, token } => json::json_object_text(
            seq![
                named_op("pin_take_peer"@),
                ("body"@, json::json_string_text(body)),
                ("path"@, json::json_string_text(path)),
                ("token"@, json::json_string_text(token)),
            ],
        ),
        PinCommandModel::Recovery { command } => match command {
            RecoveryCommandModel::List { after } => json::json_object_text(
                seq![named_op("pin_recovery_list"@), ("after"@, json::json_optional_text(after))],
            ),
            RecoveryCommandModel::Inspect { id } => single("pin_recovery_inspect"@, "id"@, id),
            RecoveryCommandModel::Export { id, version, token } => json::json_object_text(
                seq![
                    named_op("pin_recovery_export"@),
                    ("id"@, json::json_string_text(id)),
                    ("version"@, json::json_string_text(version)),
                    ("token"@, json::json_string_text(token)),
                ],
            ),
            RecoveryCommandModel::Resolve { id, choice, token } => json::json_object_text(
                seq![
                    named_op("pin_recovery_resolve"@),
                    ("id"@, json::json_string_text(id)),
                    ("choice"@, json::json_string_text(scan::replaced(choice, '-', "_"@))),
                    ("token"@, json::json_string_text(token)),
                ],
            ),
            RecoveryCommandModel::Discard { id, token } => json::json_object_text(
                seq![
                    named_op("pin_recovery_discard"@),
                    ("id"@, json::json_string_text(id)),
                    ("token"@, json::json_string_text(token)),
                ],
            ),
        },
    }
}

fn triple_text(op: &str, a: (&str, &str), b: (&str, &str), c: (&str, &str)) -> (json: String)
    ensures
        json@ == json::json_object_text(
            seq![
                named_op(op@),
                (a.0@, json::json_string_text(a.1@)),
                (b.0@, json::json_string_text(b.1@)),
                (c.0@, json::json_string_text(c.1@)),
            ],
        ),
{
    let fields: Vec<(&str, String)> = vec![
        ("op", json_string(op)),
        (a.0, json_string(a.1)),
        (b.0, json_string(b.1)),
        (c.0, json_string(c.1)),
    ];
    assert(json::named_fields(fields@) =~= seq![
        named_op(op@),
        (a.0@, json::json_string_text(a.1@)),
        (b.0@, json::json_string_text(b.1@)),
        (c.0@, json::json_string_text(c.1@)),
    ]);
    json_object(&fields)
}

pub fn request(command: &PinCommand) -> (json: String)
    ensures
        json@ == pin_message(command@),
{
    match command {
        PinCommand::On => bare_text("pin_on"),
        PinCommand::Off => bare_text("pin_off"),
        PinCommand::Sync { body } => single_text("pin_sync", "body", body),
        PinCommand::Conflicts { body } => single_text("pin_conflicts", "body", body),
        PinCommand::TakePeer { body, path, token } => triple_text(
            "pin_take_peer",
            ("body", body),
            ("path", path),
            ("token", token),
        ),
        PinCommand::Recovery { command } => match command {
            RecoveryCommand::List { after } => {
                let fields: Vec<(&str, String)> = vec![
                    ("op", json_string("pin_recovery_list")),
                    ("after", json_optional(after.as_ref())),
                ];
                assert(json::named_fields(fields@) =~= seq![
                    named_op("pin_recovery_list"@),
                    ("after"@, json::json_optional_text(after.deep_view())),
                ]);
                json_object(&fields)
            },
            RecoveryCommand::Inspect { id } => single_text("pin_recovery_inspect", "id", id),
            RecoveryCommand::Export { id, version, token } => triple_text(
                "pin_recovery_export",
                ("id", id),
                ("version", version),
                ("token", token),
            ),
            RecoveryCommand::Resolve { id, choice, token } => {
                let word = replace_char(choice, '-', "_");
                triple_text(
                    "pin_recovery_resolve",
                    ("id", id),
                    ("choice", &word),
                    ("token", token),
                )
            },
            RecoveryCommand::Discard { id, token } => {
                let fields: Vec<(&str, String)> = vec![
                    ("op", json_string("pin_recovery_discard")),
                    ("id", json_string(id)),
                    ("token", json_string(token)),
                ];
                assert(json::named_fields(fields@) =~= seq![
                    named_op("pin_recovery_discard"@),
                    ("id"@, json::json_string_text(id@)),
                    ("token"@, json::json_string_text(token@)),
                ]);
                json_object(&fields)
            },
        },
    }
}

/// Starting a pairing, or joining one by its phrase at an address that may be set.
pub open spec fn pair_message(
    phrase: Option<Seq<char>>,
    name: Option<Seq<char>>,
    addr: Option<Seq<char>>,
) -> Seq<char> {
    match phrase {
        None => json::json_object_text(seq![named_op("pair_start"@), ("name"@, json::json_optional_text(name))]),
        Some(phrase) => json::json_object_text(
            seq![
                named_op("pair_join"@),
                ("phrase"@, json::json_string_text(phrase)),
                ("name"@, json::json_optional_text(name)),
                ("addr"@, json::json_optional_text(addr)),
            ],
        ),
    }
}

pub fn pair_request(phrase: &Option<String>, name: &Option<String>, addr: &Option<String>) -> (json:
    String)
    ensures
        json@ == pair_message(phrase.deep_view(), name.deep_view(), addr.deep_view()),
{
    match phrase {
        None => {
            let fields: Vec<(&str, String)> = vec![
                ("op", json_string("pair_start")),
                ("name", json_optional(name.as_ref())),
            ];
            assert(json::named_fields(fields@) =~= seq![
                named_op("pair_start"@),
                ("name"@, json::json_optional_text(name.deep_view())),
            ]);
            json_object(&fields)
        },
        Some(phrase) => {
            let fields: Vec<(&str, String)> = vec![
                ("op", json_string("pair_join")),
                ("phrase", json_string(phrase)),
                ("name", json_optional(name.as_ref())),
                ("addr", json_optional(addr.as_ref())),
            ];
            assert(json::named_fields(fields@) =~= seq![
                named_op("pair_join"@),
                ("phrase"@, json::json_string_text(phrase@)),
                ("name"@, json::json_optional_text(name.deep_view())),
                ("addr"@, json::json_optional_text(addr.deep_view())),
            ]);
            json_object(&fields)
        },
    }
}

/// The request that a command sends.
pub open spec fn cmd_message(cmd: CmdModel) -> Outcome<Seq<char>> {
    match cmd {
        CmdModel::Add { tool, allow, once, for_dur, until, days, dates, from, to, weekdays, args } => Ok(
            json::json_object_text(
                seq![named_op("add"@), ("tool"@, json::json_string_text(tool)), ("args"@, args_json(args))]
                    + term_fields(allow, once, for_dur, until, days, dates, from, to, weekdays),
            ),
        ),
        CmdModel::Hands => Ok(bare("hands"@)),
        CmdModel::Remove { tool } => Ok(single("remove"@, "tool"@, tool)),
        CmdModel::Exec { body, argv, no_wait } => Ok(
            json::json_object_text(
                seq![
                    named_op("exec"@),
                    ("body"@, json::json_string_text(body)),
                    ("argv"@, json::json_list(json::text_items(argv))),
                    ("no_wait"@, json::json_bool_text(no_wait)),
                ],
            ),
        ),
        CmdModel::Pair { phrase, name } => Ok(pair_message(phrase, name, None)),
        CmdModel::Log => Ok(bare("log"@)),
        CmdModel::Job(command) => Ok(job_message(command)),
        CmdModel::Storage(command) => Ok(storage_message(command)),
        CmdModel::Pin(command) => Ok(pin_message(command)),
        CmdModel::Pending => Ok(bare("pending"@)),
        CmdModel::Allow { request_id, allow, once, for_dur, until, days, dates, from, to, weekdays } => Ok(
            json::json_object_text(
                seq![named_op("allow_request"@), ("request_id"@, json::json_string_text(request_id))]
                    + term_fields(allow, once, for_dur, until, days, dates, from, to, weekdays),
            ),
        ),
        CmdModel::Deny { request_id } => Ok(single("deny_request"@, "request_id"@, request_id)),
        CmdModel::Request { body, tool } => Ok(
            json::json_object_text(
                seq![
                    named_op("request"@),
                    ("body"@, json::json_string_text(body)),
                    ("tool"@, json::json_string_text(tool)),
                ],
            ),
        ),
        CmdModel::Status => Ok(bare("status"@)),
        CmdModel::Daemon => Err(ErrorModel::Usage("not a client command"@)),
        CmdModel::Install => Err(ErrorModel::Usage("not a client command"@)),
    }
}

pub fn rpc_from_cmd(cmd: &Cmd) -> (result: Result<String>)
    ensures
        error::outcome(result) == cmd_message(cmd@),
{
    match cmd {
        Cmd::Add { tool, allow, once, for_dur, until, days, dates, from, to, weekdays, args } => {
            let listed = match args {
                Some(lists) => json_text_lists(lists),
                None => owned("null"),
            };
            let mut fields: Vec<(&str, String)> = vec![
                ("op", json_string("add")),
                ("tool", json_string(tool)),
                ("args", listed),
            ];
            assert(json::named_fields(fields@) =~= seq![
                named_op("add"@),
                ("tool"@, json::json_string_text(tool@)),
                ("args"@, args_json(args.deep_view())),
            ]);
            push_terms(
                &mut fields,
                allow,
                *once,
                *for_dur,
                until,
                days,
                dates,
                from,
                to,
                *weekdays,
            );
            Ok(json_object(&fields))
        },
        Cmd::Hands => Ok(bare_text("hands")),
        Cmd::Remove { tool } => Ok(single_text("remove", "tool", tool)),
        Cmd::Exec { body, argv, no_wait } => {
            let fields: Vec<(&str, String)> = vec![
                ("op", json_string("exec")),
                ("body", json_string(body)),
                ("argv", json_texts(argv)),
                ("no_wait", json_bool(*no_wait)),
            ];
            assert(json::named_fields(fields@) =~= seq![
                named_op("exec"@),
                ("body"@, json::json_string_text(body@)),
                ("argv"@, json::json_list(json::text_items(argv.deep_view()))),
                ("no_wait"@, json::json_bool_text(*no_wait)),
            ]);
            Ok(json_object(&fields))
        },
        Cmd::Pair { phrase, name } => Ok(pair_request(phrase, name, &None)),
        Cmd::Log => Ok(bare_text("log")),
        Cmd::Job(command) => Ok(job_text(command)),
        Cmd::Storage(command) => Ok(storage_text(command)),
        Cmd::Pin(command) => Ok(request(command)),
        Cmd::Pending => Ok(bare_text("pending")),
        Cmd::Allow { request_id, allow, once, for_dur, until, days, dates, from, to, weekdays } => {
            let mut fields: Vec<(&str, String)> = vec![
                ("op", json_string("allow_request")),
                ("request_id", json_string(request_id)),
            ];
            assert(json::named_fields(fields@) =~= seq![
                named_op("allow_request"@),
                ("request_id"@, json::json_string_text(request_id@)),
            ]);
            push_terms(
                &mut fields,
                allow,
                *once,
                *for_dur,
                until,
                days,
                dates,
                from,
                to,
                *weekdays,
            );
            Ok(json_object(&fields))
        },
        Cmd::Deny { request_id } => Ok(single_text("deny_request", "request_id", request_id)),
        Cmd::Request { body, tool } => {
            let fields: Vec<(&str, String)> = vec![
                ("op", json_string("request")),
                ("body", json_string(body)),
                ("tool", json_string(tool)),
            ];
            assert(json::named_fields(fields@) =~= seq![
                named_op("request"@),
                ("body"@, json::json_string_text(body@)),
                ("tool"@, json::json_string_text(tool@)),
            ]);
            Ok(json_object(&fields))
        },
        Cmd::Status => Ok(bare_text("status")),
        Cmd::Daemon => Err(usage("not a client command")),
        Cmd::Install => Err(usage("not a client command")),
    }
}

} // verus!
