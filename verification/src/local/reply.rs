//! What the owner gets to see of a reply.

use vstd::prelude::*;

use crate::cli::{Cmd, JobCommand};
use crate::cli::command::{CmdModel, JobCommandModel};
use crate::data::{bytes_dup, Data};
use crate::error::{ClixError, ErrorModel};
use crate::text::{bytes_same, cat2, cat5, owned, text_same};

verus! {

/// A pending request, as a reply tells of it.
#[derive(Debug, Clone, PartialEq, Eq)]
pub struct PendingRow {
    pub id: String,
    pub from: Option<String>,
    pub tool: Option<String>,
}

/// What a `PendingRow` says.
#[verifier::ext_equal]
pub struct PendingRowModel {
    pub id: Seq<char>,
    pub from: Option<Seq<char>>,
    pub tool: Option<Seq<char>>,
}

impl View for PendingRow {
    type V = PendingRowModel;

    open spec fn view(&self) -> PendingRowModel {
        PendingRowModel {
            id: self.id.deep_view(),
            from: self.from.deep_view(),
            tool: self.tool.deep_view(),
        }
    }
}

impl DeepView for PendingRow {
    type V = PendingRowModel;

    open spec fn deep_view(&self) -> PendingRowModel {
        self@
    }
}

impl Data for PendingRow {
    fn dup(&self) -> (copy: Self) {
        PendingRow {
            id: self.id.dup(),
            from: self.from.dup(),
            tool: self.tool.dup(),
        }
    }

    fn same(&self, other: &Self) -> (equal: bool) {
        self.id.same(&other.id)
            && self.from.same(&other.from)
            && self.tool.same(&other.tool)
    }
}

/// What a reply says, field by field.
#[derive(Debug, Clone, PartialEq, Eq)]
pub struct Reply {
    pub ok: Option<bool>,
    pub error: Option<String>,
    /// What became of a job.
    pub status: Option<String>,
    pub waiting: Option<String>,
    pub reason: Option<String>,
    pub job_id: Option<String>,
    pub exit: Option<i32>,
    pub stdout: Vec<u8>,
    pub stderr: Vec<u8>,
    pub body: Option<String>,
    pub peers: Vec<String>,
    pub phrase: Option<String>,
    /// Grants or jobs, one line each.
    pub lines: Vec<String>,
    pub requests: Vec<PendingRow>,
    pub warning: Option<String>,
    pub synced: Option<bool>,
    /// The whole reply, laid out for reading.
    pub pretty: String,
}

/// What a `Reply` says.
#[verifier::ext_equal]
pub struct ReplyModel {
    pub ok: Option<bool>,
    pub error: Option<Seq<char>>,
    pub status: Option<Seq<char>>,
    pub waiting: Option<Seq<char>>,
    pub reason: Option<Seq<char>>,
    pub job_id: Option<Seq<char>>,
    pub exit: Option<i32>,
    pub stdout: Seq<u8>,
    pub stderr: Seq<u8>,
    pub body: Option<Seq<char>>,
    pub peers: Seq<Seq<char>>,
    pub phrase: Option<Seq<char>>,
    pub lines: Seq<Seq<char>>,
    pub requests: Seq<PendingRowModel>,
    pub warning: Option<Seq<char>>,
    pub synced: Option<bool>,
    pub pretty: Seq<char>,
}

impl View for Reply {
    type V = ReplyModel;

    open spec fn view(&self) -> ReplyModel {
        ReplyModel {
            ok: self.ok.deep_view(),
            error: self.error.deep_view(),
            status: self.status.deep_view(),
            waiting: self.waiting.deep_view(),
            reason: self.reason.deep_view(),
            job_id: self.job_id.deep_view(),
            exit: self.exit.deep_view(),
            stdout: self.stdout@,
            stderr: self.stderr@,
            body: self.body.deep_view(),
            peers: self.peers.deep_view(),
            phrase: self.phrase.deep_view(),
            lines: self.lines.deep_view(),
            requests: self.requests.deep_view(),
            warning: self.warning.deep_view(),
            synced: self.synced.deep_view(),
            pretty: self.pretty.deep_view(),
        }
    }
}

impl DeepView for Reply {
    type V = ReplyModel;

    open spec fn deep_view(&self) -> ReplyModel {
        self@
    }
}

impl Data for Reply {
    fn dup(&self) -> (copy: Self) {
        Reply {
            ok: self.ok.dup(),
            error: self.error.dup(),
            status: self.status.dup(),
            waiting: self.waiting.dup(),
            reason: self.reason.dup(),
            job_id: self.job_id.dup(),
            exit: self.exit.dup(),
            stdout: bytes_dup(&self.stdout),
            stderr: bytes_dup(&self.stderr),
            body: self.body.dup(),
            peers: self.peers.dup(),
            phrase: self.phrase.dup(),
            lines: self.lines.dup(),
            requests: self.requests.dup(),
            warning: self.warning.dup(),
            synced: self.synced.dup(),
            pretty: self.pretty.dup(),
        }
    }

    fn same(&self, other: &Self) -> (equal: bool) {
        self.ok.same(&other.ok)
            && self.error.same(&other.error)
            && self.status.same(&other.status)
            && self.waiting.same(&other.waiting)
            && self.reason.same(&other.reason)
            && self.job_id.same(&other.job_id)
            && self.exit.same(&other.exit)
            && bytes_same(&self.stdout, &other.stdout)
            && bytes_same(&self.stderr, &other.stderr)
            && self.body.same(&other.body)
            && self.peers.same(&other.peers)
            && self.phrase.same(&other.phrase)
            && self.lines.same(&other.lines)
            && self.requests.same(&other.requests)
            && self.warning.same(&other.warning)
            && self.synced.same(&other.synced)
            && self.pretty.same(&other.pretty)
    }
}

/// What follows from one line of a reply.
#[derive(Debug)]
pub enum ClientStep {
    /// The request failed.
    Failed(ClixError),
    /// The job waits: say so and read on.
    Waiting(Option<String>),
    Done,
}

#[verifier::ext_equal]
pub enum ClientStepModel {
    Failed(ErrorModel),
    Waiting(Option<Seq<char>>),
    Done,
}

impl View for ClientStep {
    type V = ClientStepModel;

    open spec fn view(&self) -> ClientStepModel {
        match self {
            ClientStep::Failed(e) => ClientStepModel::Failed(e@),
            ClientStep::Waiting(text) => ClientStepModel::Waiting(text.deep_view()),
            ClientStep::Done => ClientStepModel::Done,
        }
    }
}

pub open spec fn client_step_of(reply: ReplyModel, no_wait: bool) -> ClientStepModel {
    if reply.ok == Some(false) {
        ClientStepModel::Failed(
            ErrorModel::Io(
                match reply.error {
                    Some(text) => text,
                    None => "request failed"@,
                },
            ),
        )
    } else if reply.status == Some("waiting"@) && !no_wait {
        ClientStepModel::Waiting(reply.waiting)
    } else {
        ClientStepModel::Done
    }
}

fn is_text(text: &Option<String>, wanted: &str) -> (yes: bool)
    ensures
        yes == (text.deep_view() == Some(wanted@)),
{
    match text {
        Some(text) => text_same(text, wanted),
        None => false,
    }
}

fn text_or(text: &Option<String>, other: &str) -> (chosen: String)
    ensures
        chosen@ == or_else(text.deep_view(), other@),
{
    match text {
        Some(text) => text.dup(),
        None => owned(other),
    }
}

/// A text, or another where it is missing.
pub open spec fn or_else(text: Option<Seq<char>>, other: Seq<char>) -> Seq<char> {
    match text {
        Some(text) => text,
        None => other,
    }
}

/// Read one line of a reply. A client that does not wait takes the first.
pub fn client_step(reply: &Reply, no_wait: bool) -> (step: ClientStep)
    ensures
        step@ == client_step_of(reply@, no_wait),
{
    if let Some(ok) = reply.ok {
        if !ok {
            return ClientStep::Failed(ClixError::Io(text_or(&reply.error, "request failed")));
        }
    }
    if is_text(&reply.status, "waiting") && !no_wait {
        return ClientStep::Waiting(reply.waiting.dup());
    }
    ClientStep::Done
}

/// What is printed: whole lines, a job's own bytes, and how it ends.
#[derive(Debug)]
pub struct Printed {
    pub out: Vec<String>,
    pub err: Vec<String>,
    pub raw_out: Vec<u8>,
    pub raw_err: Vec<u8>,
    /// The exit code of the job, where there is one.
    pub exit: Option<i32>,
    pub failure: Option<ClixError>,
}

#[verifier::ext_equal]
pub struct PrintedModel {
    pub out: Seq<Seq<char>>,
    pub err: Seq<Seq<char>>,
    pub raw_out: Seq<u8>,
    pub raw_err: Seq<u8>,
    pub exit: Option<i32>,
    pub failure: Option<ErrorModel>,
}

impl View for Printed {
    type V = PrintedModel;

    open spec fn view(&self) -> PrintedModel {
        PrintedModel {
            out: self.out.deep_view(),
            err: self.err.deep_view(),
            raw_out: self.raw_out@,
            raw_err: self.raw_err@,
            exit: self.exit,
            failure: match self.failure {
                Some(e) => Some(e@),
                None => None,
            },
        }
    }
}

pub open spec fn nothing() -> PrintedModel {
    PrintedModel {
        out: Seq::empty(),
        err: Seq::empty(),
        raw_out: Seq::empty(),
        raw_err: Seq::empty(),
        exit: None,
        failure: None,
    }
}

pub open spec fn lines_of(text: Option<Seq<char>>) -> Seq<Seq<char>> {
    match text {
        Some(text) => seq![text],
        None => Seq::empty(),
    }
}

fn print_nothing() -> (printed: Printed)
    ensures
        printed@ == nothing(),
{
    let printed = Printed {
        out: Vec::new(),
        err: Vec::new(),
        raw_out: Vec::new(),
        raw_err: Vec::new(),
        exit: None,
        failure: None,
    };
    assert(printed@ =~= nothing());
    printed
}

fn optional_line(text: &Option<String>) -> (lines: Vec<String>)
    ensures
        lines.deep_view() == lines_of(text.deep_view()),
{
    let mut lines: Vec<String> = Vec::new();
    if let Some(text) = text {
        lines.push(text.dup());
    }
    assert(lines.deep_view() =~= lines_of(text.deep_view()));
    lines
}

pub open spec fn pending_line(row: PendingRowModel) -> Seq<char> {
    row.id + " "@ + or_else(row.from, "?"@) + " wants "@ + or_else(row.tool, "?"@)
}

pub open spec fn pending_lines(rows: Seq<PendingRowModel>) -> Seq<Seq<char>> {
    Seq::new(rows.len(), |i: int| pending_line(rows[i]))
}

fn pending_texts(rows: &Vec<PendingRow>) -> (lines: Vec<String>)
    ensures
        lines.deep_view() == pending_lines(rows.deep_view()),
{
    let ghost view = rows.deep_view();
    let ghost all = pending_lines(view);
    let mut lines: Vec<String> = Vec::new();
    let mut i: usize = 0;
    assert(lines.deep_view() =~= all.take(0));
    while i < rows.len()
        invariant
            i <= rows.len(),
            view == rows.deep_view(),
            all == pending_lines(view),
            lines.deep_view() == all.take(i as int),
        decreases rows.len() - i,
    {
        let ghost before = lines.deep_view();
        assert(view[i as int] == rows@[i as int]@);
        let from = text_or(&rows[i].from, "?");
        let tool = text_or(&rows[i].tool, "?");
        let line = cat5(&rows[i].id, " ", &from, " wants ", &tool);
        let ghost item = line@;
        lines.push(line);
        assert(lines.deep_view() =~= before.push(item));
        assert(all.take(i + 1) =~= before.push(item));
        i += 1;
    }
    assert(all.take(i as int) =~= all);
    lines
}

/// A job's reply: why it waits, or its ID, or its output and exit code.
pub open spec fn exec_shown(reply: ReplyModel, no_wait: bool) -> PrintedModel {
    if reply.status == Some("waiting"@) {
        PrintedModel {
            err: lines_of(reply.waiting),
            out: if no_wait {
                lines_of(reply.job_id)
            } else {
                Seq::empty()
            },
            ..nothing()
        }
    } else if reply.status == Some("running"@) || reply.status == Some("queued"@) {
        PrintedModel { out: lines_of(reply.job_id), ..nothing() }
    } else if reply.status == Some("denied"@) || reply.status == Some("failed"@) || reply.status
        == Some("uncertain"@) {
        PrintedModel {
            failure: Some(ErrorModel::Io(or_else(reply.reason, "denied"@))),
            ..nothing()
        }
    } else {
        PrintedModel {
            raw_out: reply.stdout,
            raw_err: reply.stderr,
            exit: reply.exit,
            ..nothing()
        }
    }
}

fn show_exec(reply: &Reply, no_wait: bool) -> (printed: Printed)
    ensures
        printed@ == exec_shown(reply@, no_wait),
{
    let mut printed = print_nothing();
    if is_text(&reply.status, "waiting") {
        printed.err = optional_line(&reply.waiting);
        if no_wait {
            printed.out = optional_line(&reply.job_id);
        }
        return printed;
    }
    if is_text(&reply.status, "running") || is_text(&reply.status, "queued") {
        printed.out = optional_line(&reply.job_id);
        return printed;
    }
    if is_text(&reply.status, "denied") || is_text(&reply.status, "failed") || is_text(
        &reply.status,
        "uncertain",
    ) {
        printed.failure = Some(ClixError::Io(text_or(&reply.reason, "denied")));
        return printed;
    }
    printed.raw_out = bytes_dup(&reply.stdout);
    printed.raw_err = bytes_dup(&reply.stderr);
    printed.exit = reply.exit;
    printed
}

/// A whole reply, with a failure where a synchronization did not complete.
pub open spec fn pin_shown(reply: ReplyModel) -> PrintedModel {
    PrintedModel {
        out: seq![reply.pretty],
        failure: if reply.synced == Some(false) {
            Some(
                ErrorModel::Usage(
                    or_else(reply.error, "pin synchronization did not complete"@),
                ),
            )
        } else {
            None
        },
        ..nothing()
    }
}

/// What a command prints of its reply.
pub open spec fn shown(cmd: CmdModel, reply: ReplyModel) -> PrintedModel {
    match cmd {
        CmdModel::Hands => PrintedModel { out: reply.lines, ..nothing() },
        CmdModel::Log => PrintedModel { out: reply.lines, ..nothing() },
        CmdModel::Pending => PrintedModel { out: pending_lines(reply.requests), ..nothing() },
        CmdModel::Exec { body, argv, no_wait } => exec_shown(reply, no_wait),
        CmdModel::Status => PrintedModel {
            out: lines_of(reply.body) + reply.peers,
            ..nothing()
        },
        CmdModel::Pair { phrase, name } => match phrase {
            None => PrintedModel {
                out: lines_of(
                    match reply.phrase {
                        Some(p) => Some("pair with: "@ + p),
                        None => None,
                    },
                ),
                ..nothing()
            },
            Some(_) => nothing(),
        },
        CmdModel::Job(command) => match command {
            JobCommandModel::Inspect { .. } => PrintedModel {
                out: seq![reply.pretty],
                err: lines_of(reply.warning),
                ..nothing()
            },
            JobCommandModel::Output { .. } => PrintedModel { raw_out: reply.stdout, ..nothing() },
            JobCommandModel::Retry { .. } => PrintedModel {
                out: lines_of(reply.job_id),
                ..nothing()
            },
        },
        CmdModel::Storage(_) => PrintedModel { out: seq![reply.pretty], ..nothing() },
        CmdModel::Pin(_) => pin_shown(reply),
        _ => nothing(),
    }
}

fn pretty_lines(reply: &Reply) -> (lines: Vec<String>)
    ensures
        lines.deep_view() == seq![reply@.pretty],
{
    let lines: Vec<String> = vec![reply.pretty.dup()];
    assert(lines.deep_view() =~= seq![reply@.pretty]);
    lines
}

fn status_lines(reply: &Reply) -> (lines: Vec<String>)
    ensures
        lines.deep_view() == lines_of(reply@.body) + reply@.peers,
{
    let mut lines = optional_line(&reply.body);
    let ghost head = lines.deep_view();
    let ghost view = reply@.peers;
    let mut i: usize = 0;
    assert(head + view.take(0) =~= head);
    while i < reply.peers.len()
        invariant
            i <= reply.peers.len(),
            view == reply@.peers,
            lines.deep_view() == head + view.take(i as int),
        decreases reply.peers.len() - i,
    {
        let ghost before = lines.deep_view();
        assert(view[i as int] == reply.peers@[i as int]@);
        lines.push(reply.peers[i].dup());
        assert(lines.deep_view() =~= before.push(view[i as int]));
        assert(head + view.take(i + 1) =~= before.push(view[i as int]));
        i += 1;
    }
    assert(view.take(i as int) =~= view);
    lines
}

pub fn emit_rpc(cmd: &Cmd, reply: &Reply) -> (printed: Printed)
    ensures
        printed@ == shown(cmd@, reply@),
{
    let mut printed = print_nothing();
    match cmd {
        Cmd::Hands => printed.out = reply.lines.dup(),
        Cmd::Log => printed.out = reply.lines.dup(),
        Cmd::Pending => printed.out = pending_texts(&reply.requests),
        Cmd::Exec { body: _, argv: _, no_wait } => return show_exec(reply, *no_wait),
        Cmd::Status => printed.out = status_lines(reply),
        Cmd::Pair { phrase, name: _ } => {
            if phrase.is_none() {
                let line: Option<String> = match &reply.phrase {
                    Some(p) => Some(cat2("pair with: ", p)),
                    None => None,
                };
                printed.out = optional_line(&line);
            }
        },
        Cmd::Job(command) => match command {
            JobCommand::Inspect { .. } => {
                printed.out = pretty_lines(reply);
                printed.err = optional_line(&reply.warning);
            },
            JobCommand::Output { .. } => printed.raw_out = bytes_dup(&reply.stdout),
            JobCommand::Retry { .. } => printed.out = optional_line(&reply.job_id),
        },
        Cmd::Storage(_) => printed.out = pretty_lines(reply),
        Cmd::Pin(_) => {
            printed.out = pretty_lines(reply);
            if let Some(synced) = reply.synced {
                if !synced {
                    printed.failure = Some(
                        ClixError::Usage(
                            text_or(&reply.error, "pin synchronization did not complete"),
                        ),
                    );
                }
            }
        },
        _ => {},
    }
    printed
}

/// The longest line of an export stream, with its end.
pub const EXPORT_LINE_BYTES: usize = 512 * 1024;

/// A line of an export that can be read on: whole, and not too long.
pub fn export_line(line: &Vec<u8>) -> (whole: bool)
    ensures
        whole == (line@.len() <= EXPORT_LINE_BYTES && line@.len() > 0 && line@.last() == 10u8),
{
    line.len() <= EXPORT_LINE_BYTES && line.len() > 0 && line[line.len() - 1] == 10
}

/// A stream that stopped before its end.
pub fn export_cut() -> (error: ClixError)
    ensures
        error@ == ErrorModel::Protocol("pin export ended without a verified complete stream"@),
{
    ClixError::Protocol(owned("pin export ended without a verified complete stream"))
}

} // verus!
