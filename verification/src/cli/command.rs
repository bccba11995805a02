//! The commands that the command line can ask for.

use vstd::prelude::*;

use crate::data::{bytes_dup, Data};
use crate::text::bytes_same;
use crate::types::{Timestamp, TimestampModel};

verus! {

/// What can be asked about a job.
#[derive(Debug, Clone, PartialEq, Eq)]
pub enum JobCommand {
    Inspect {
        job_id: String,
    },
    Output {
        job_id: String,
        stderr: bool,
    },
    Retry {
        job_id: String,
    },
}

/// What a `JobCommand` says.
#[verifier::ext_equal]
pub enum JobCommandModel {
    Inspect {
        job_id: Seq<char>,
    },
    Output {
        job_id: Seq<char>,
        stderr: bool,
    },
    Retry {
        job_id: Seq<char>,
    },
}

impl View for JobCommand {
    type V = JobCommandModel;

    open spec fn view(&self) -> JobCommandModel {
        match self {
            JobCommand::Inspect { job_id } => JobCommandModel::Inspect { job_id: job_id.deep_view() },
            JobCommand::Output { job_id, stderr } => JobCommandModel::Output { job_id: job_id.deep_view(), stderr: *stderr },
            JobCommand::Retry { job_id } => JobCommandModel::Retry { job_id: job_id.deep_view() },
        }
    }
}

impl DeepView for JobCommand {
    type V = JobCommandModel;

    open spec fn deep_view(&self) -> JobCommandModel {
        self@
    }
}

impl Data for JobCommand {
    fn dup(&self) -> (copy: Self) {
        match self {
            JobCommand::Inspect { job_id } => JobCommand::Inspect { job_id: job_id.dup() },
            JobCommand::Output { job_id, stderr } => JobCommand::Output { job_id: job_id.dup(), stderr: *stderr },
            JobCommand::Retry { job_id } => JobCommand::Retry { job_id: job_id.dup() },
        }
    }

    fn same(&self, other: &Self) -> (equal: bool) {
        match (self, other) {
            (JobCommand::Inspect { job_id: job_id_a }, JobCommand::Inspect { job_id: job_id_b }) => job_id_a.same(job_id_b),
            (JobCommand::Output { job_id: job_id_a, stderr: stderr_a }, JobCommand::Output { job_id: job_id_b, stderr: stderr_b }) => job_id_a.same(job_id_b) && *stderr_a == *stderr_b,
            (JobCommand::Retry { job_id: job_id_a }, JobCommand::Retry { job_id: job_id_b }) => job_id_a.same(job_id_b),
            _ => false,
        }
    }
}

/// What can be asked of the saved state.
#[derive(Debug, Clone, PartialEq, Eq)]
pub enum StorageCommand {
    Status,
    Prune {
        keep_output_jobs: usize,
    },
}

/// What a `StorageCommand` says.
#[verifier::ext_equal]
pub enum StorageCommandModel {
    Status,
    Prune {
        keep_output_jobs: usize,
    },
}

impl View for StorageCommand {
    type V = StorageCommandModel;

    open spec fn view(&self) -> StorageCommandModel {
        match self {
            StorageCommand::Status => StorageCommandModel::Status,
            StorageCommand::Prune { keep_output_jobs } => StorageCommandModel::Prune { keep_output_jobs: *keep_output_jobs },
        }
    }
}

impl DeepView for StorageCommand {
    type V = StorageCommandModel;

    open spec fn deep_view(&self) -> StorageCommandModel {
        self@
    }
}

impl Data for StorageCommand {
    fn dup(&self) -> (copy: Self) {
        match self {
            StorageCommand::Status => StorageCommand::Status,
            StorageCommand::Prune { keep_output_jobs } => StorageCommand::Prune { keep_output_jobs: *keep_output_jobs },
        }
    }

    fn same(&self, other: &Self) -> (equal: bool) {
        match (self, other) {
            (StorageCommand::Status, StorageCommand::Status) => true,
            (StorageCommand::Prune { keep_output_jobs: keep_output_jobs_a }, StorageCommand::Prune { keep_output_jobs: keep_output_jobs_b }) => *keep_output_jobs_a == *keep_output_jobs_b,
            _ => false,
        }
    }
}

/// What can be asked of retained versions.
#[derive(Debug, Clone, PartialEq, Eq)]
pub enum RecoveryCommand {
    List {
        after: Option<String>,
    },
    Inspect {
        id: String,
    },
    /// Write the inspected version's bytes to stdout; errors exit nonzero.
    Export {
        id: String,
        version: String,
        token: String,
    },
    /// Resolve exactly the versions shown by inspection.
    Resolve {
        id: String,
        choice: String,
        token: String,
    },
    /// Permanently remove an explicitly inspected retained version or artifact.
    Discard {
        id: String,
        token: String,
    },
}

/// What a `RecoveryCommand` says.
#[verifier::ext_equal]
pub enum RecoveryCommandModel {
    List {
        after: Option<Seq<char>>,
    },
    Inspect {
        id: Seq<char>,
    },
    Export {
        id: Seq<char>,
        version: Seq<char>,
        token: Seq<char>,
    },
    Resolve {
        id: Seq<char>,
        choice: Seq<char>,
        token: Seq<char>,
    },
    Discard {
        id: Seq<char>,
        token: Seq<char>,
    },
}

impl View for RecoveryCommand {
    type V = RecoveryCommandModel;

    open spec fn view(&self) -> RecoveryCommandModel {
        match self {
            RecoveryCommand::List { after } => RecoveryCommandModel::List { after: after.deep_view() },
            RecoveryCommand::Inspect { id } => RecoveryCommandModel::Inspect { id: id.deep_view() },
            RecoveryCommand::Export { id, version, token } => RecoveryCommandModel::Export { id: id.deep_view(), version: version.deep_view(), token: token.deep_view() },
            RecoveryCommand::Resolve { id, choice, token } => RecoveryCommandModel::Resolve { id: id.deep_view(), choice: choice.deep_view(), token: token.deep_view() },
            RecoveryCommand::Discard { id, token } => RecoveryCommandModel::Discard { id: id.deep_view(), token: token.deep_view() },
        }
    }
}

impl DeepView for RecoveryCommand {
    type V = RecoveryCommandModel;

    open spec fn deep_view(&self) -> RecoveryCommandModel {
        self@
    }
}

impl Data for RecoveryCommand {
    fn dup(&self) -> (copy: Self) {
        match self {
            RecoveryCommand::List { after } => RecoveryCommand::List { after: after.dup() },
            RecoveryCommand::Inspect { id } => RecoveryCommand::Inspect { id: id.dup() },
            RecoveryCommand::Export { id, version, token } => RecoveryCommand::Export { id: id.dup(), version: version.dup(), token: token.dup() },
            RecoveryCommand::Resolve { id, choice, token } => RecoveryCommand::Resolve { id: id.dup(), choice: choice.dup(), token: token.dup() },
            RecoveryCommand::Discard { id, token } => RecoveryCommand::Discard { id: id.dup(), token: token.dup() },
        }
    }

    fn same(&self, other: &Self) -> (equal: bool) {
        match (self, other) {
            (RecoveryCommand::List { after: after_a }, RecoveryCommand::List { after: after_b }) => after_a.same(after_b),
            (RecoveryCommand::Inspect { id: id_a }, RecoveryCommand::Inspect { id: id_b }) => id_a.same(id_b),
            (RecoveryCommand::Export { id: id_a, version: version_a, token: token_a }, RecoveryCommand::Export { id: id_b, version: version_b, token: token_b }) => id_a.same(id_b) && version_a.same(version_b) && token_a.same(token_b),
            (RecoveryCommand::Resolve { id: id_a, choice: choice_a, token: token_a }, RecoveryCommand::Resolve { id: id_b, choice: choice_b, token: token_b }) => id_a.same(id_b) && choice_a.same(choice_b) && token_a.same(token_b),
            (RecoveryCommand::Discard { id: id_a, token: token_a }, RecoveryCommand::Discard { id: id_b, token: token_b }) => id_a.same(id_b) && token_a.same(token_b),
            _ => false,
        }
    }
}

/// What can be asked of the shared directory.
#[derive(Debug, Clone, PartialEq, Eq)]
pub enum PinCommand {
    /// Share the source directory with paired machines.
    On,
    /// Stop sharing the source directory.
    Off,
    /// Synchronize pins with the named machine without running a tool.
    Sync {
        body: String,
    },
    /// Inspect current conflicts with the named machine.
    Conflicts {
        body: String,
    },
    /// Adopt the inspected peer version on this machine, retaining displaced data.
    TakePeer {
        body: String,
        path: String,
        token: String,
    },
    Recovery {
        command: RecoveryCommand,
    },
}

/// What a `PinCommand` says.
#[verifier::ext_equal]
pub enum PinCommandModel {
    On,
    Off,
    Sync {
        body: Seq<char>,
    },
    Conflicts {
        body: Seq<char>,
    },
    TakePeer {
        body: Seq<char>,
        path: Seq<char>,
        token: Seq<char>,
    },
    Recovery {
        command: RecoveryCommandModel,
    },
}

impl View for PinCommand {
    type V = PinCommandModel;

    open spec fn view(&self) -> PinCommandModel {
        match self {
            PinCommand::On => PinCommandModel::On,
            PinCommand::Off => PinCommandModel::Off,
            PinCommand::Sync { body } => PinCommandModel::Sync { body: body.deep_view() },
            PinCommand::Conflicts { body } => PinCommandModel::Conflicts { body: body.deep_view() },
            PinCommand::TakePeer { body, path, token } => PinCommandModel::TakePeer { body: body.deep_view(), path: path.deep_view(), token: token.deep_view() },
            PinCommand::Recovery { command } => PinCommandModel::Recovery { command: command.deep_view() },
        }
    }
}

impl DeepView for PinCommand {
    type V = PinCommandModel;

    open spec fn deep_view(&self) -> PinCommandModel {
        self@
    }
}

impl Data for PinCommand {
    fn dup(&self) -> (copy: Self) {
        match self {
            PinCommand::On => PinCommand::On,
            PinCommand::Off => PinCommand::Off,
            PinCommand::Sync { body } => PinCommand::Sync { body: body.dup() },
            PinCommand::Conflicts { body } => PinCommand::Conflicts { body: body.dup() },
            PinCommand::TakePeer { body, path, token } => PinCommand::TakePeer { body: body.dup(), path: path.dup(), token: token.dup() },
            PinCommand::Recovery { command } => PinCommand::Recovery { command: command.dup() },
        }
    }

    fn same(&self, other: &Self) -> (equal: bool) {
        match (self, other) {
            (PinCommand::On, PinCommand::On) => true,
            (PinCommand::Off, PinCommand::Off) => true,
            (PinCommand::Sync { body: body_a }, PinCommand::Sync { body: body_b }) => body_a.same(body_b),
            (PinCommand::Conflicts { body: body_a }, PinCommand::Conflicts { body: body_b }) => body_a.same(body_b),
            (PinCommand::TakePeer { body: body_a, path: path_a, token: token_a }, PinCommand::TakePeer { body: body_b, path: path_b, token: token_b }) => body_a.same(body_b) && path_a.same(path_b) && token_a.same(token_b),
            (PinCommand::Recovery { command: command_a }, PinCommand::Recovery { command: command_b }) => command_a.same(command_b),
            _ => false,
        }
    }
}

/// A command line, understood.
#[derive(Debug, Clone, PartialEq, Eq)]
pub enum Cmd {
    /// `for_dur` is in seconds.
    Add {
        tool: String,
        allow: Vec<String>,
        once: bool,
        for_dur: Option<u64>,
        until: Option<Timestamp>,
        days: Vec<String>,
        dates: Vec<u8>,
        from: Option<String>,
        to: Option<String>,
        weekdays: bool,
        args: Option<Vec<Vec<String>>>,
    },
    Exec {
        body: String,
        argv: Vec<String>,
        no_wait: bool,
    },
    Pair {
        phrase: Option<String>,
        name: Option<String>,
    },
    Hands,
    Remove {
        tool: String,
    },
    Log,
    Job(JobCommand),
    Storage(StorageCommand),
    Pin(PinCommand),
    Pending,
    Allow {
        request_id: String,
        allow: Vec<String>,
        once: bool,
        for_dur: Option<u64>,
        until: Option<Timestamp>,
        days: Vec<String>,
        dates: Vec<u8>,
        from: Option<String>,
        to: Option<String>,
        weekdays: bool,
    },
    Deny {
        request_id: String,
    },
    Request {
        body: String,
        tool: String,
    },
    Daemon,
    Install,
    Status,
}

/// What a `Cmd` says.
#[verifier::ext_equal]
pub enum CmdModel {
    Add {
        tool: Seq<char>,
        allow: Seq<Seq<char>>,
        once: bool,
        for_dur: Option<u64>,
        until: Option<TimestampModel>,
        days: Seq<Seq<char>>,
        dates: Seq<u8>,
        from: Option<Seq<char>>,
        to: Option<Seq<char>>,
        weekdays: bool,
        args: Option<Seq<Seq<Seq<char>>>>,
    },
    Exec {
        body: Seq<char>,
        argv: Seq<Seq<char>>,
        no_wait: bool,
    },
    Pair {
        phrase: Option<Seq<char>>,
        name: Option<Seq<char>>,
    },
    Hands,
    Remove {
        tool: Seq<char>,
    },
    Log,
    Job(JobCommandModel),
    Storage(StorageCommandModel),
    Pin(PinCommandModel),
    Pending,
    Allow {
        request_id: Seq<char>,
        allow: Seq<Seq<char>>,
        once: bool,
        for_dur: Option<u64>,
        until: Option<TimestampModel>,
        days: Seq<Seq<char>>,
        dates: Seq<u8>,
        from: Option<Seq<char>>,
        to: Option<Seq<char>>,
        weekdays: bool,
    },
    Deny {
        request_id: Seq<char>,
    },
    Request {
        body: Seq<char>,
        tool: Seq<char>,
    },
    Daemon,
    Install,
    Status,
}

impl View for Cmd {
    type V = CmdModel;

    open spec fn view(&self) -> CmdModel {
        match self {
            Cmd::Add { tool, allow, once, for_dur, until, days, dates, from, to, weekdays, args } => CmdModel::Add { tool: tool.deep_view(), allow: allow.deep_view(), once: *once, for_dur: for_dur.deep_view(), until: until.deep_view(), days: days.deep_view(), dates: dates@, from: from.deep_view(), to: to.deep_view(), weekdays: *weekdays, args: args.deep_view() },
            Cmd::Exec { body, argv, no_wait } => CmdModel::Exec { body: body.deep_view(), argv: argv.deep_view(), no_wait: *no_wait },
            Cmd::Pair { phrase, name } => CmdModel::Pair { phrase: phrase.deep_view(), name: name.deep_view() },
            Cmd::Hands => CmdModel::Hands,
            Cmd::Remove { tool } => CmdModel::Remove { tool: tool.deep_view() },
            Cmd::Log => CmdModel::Log,
            Cmd::Job(x0) => CmdModel::Job(x0.deep_view()),
            Cmd::Storage(x0) => CmdModel::Storage(x0.deep_view()),
            Cmd::Pin(x0) => CmdModel::Pin(x0.deep_view()),
            Cmd::Pending => CmdModel::Pending,
            Cmd::Allow { request_id, allow, once, for_dur, until, days, dates, from, to, weekdays } => CmdModel::Allow { request_id: request_id.deep_view(), allow: allow.deep_view(), once: *once, for_dur: for_dur.deep_view(), until: until.deep_view(), days: days.deep_view(), dates: dates@, from: from.deep_view(), to: to.deep_view(), weekdays: *weekdays },
            Cmd::Deny { request_id } => CmdModel::Deny { request_id: request_id.deep_view() },
            Cmd::Request { body, tool } => CmdModel::Request { body: body.deep_view(), tool: tool.deep_view() },
            Cmd::Daemon => CmdModel::Daemon,
            Cmd::Install => CmdModel::Install,
            Cmd::Status => CmdModel::Status,
        }
    }
}

impl DeepView for Cmd {
    type V = CmdModel;

    open spec fn deep_view(&self) -> CmdModel {
        self@
    }
}

impl Data for Cmd {
    fn dup(&self) -> (copy: Self) {
        match self {
            Cmd::Add { tool, allow, once, for_dur, until, days, dates, from, to, weekdays, args } => Cmd::Add { tool: tool.dup(), allow: allow.dup(), once: *once, for_dur: for_dur.dup(), until: until.dup(), days: days.dup(), dates: bytes_dup(dates), from: from.dup(), to: to.dup(), weekdays: *weekdays, args: args.dup() },
            Cmd::Exec { body, argv, no_wait } => Cmd::Exec { body: body.dup(), argv: argv.dup(), no_wait: *no_wait },
            Cmd::Pair { phrase, name } => Cmd::Pair { phrase: phrase.dup(), name: name.dup() },
            Cmd::Hands => Cmd::Hands,
            Cmd::Remove { tool } => Cmd::Remove { tool: tool.dup() },
            Cmd::Log => Cmd::Log,
            Cmd::Job(x0) => Cmd::Job(x0.dup()),
            Cmd::Storage(x0) => Cmd::Storage(x0.dup()),
            Cmd::Pin(x0) => Cmd::Pin(x0.dup()),
            Cmd::Pending => Cmd::Pending,
            Cmd::Allow { request_id, allow, once, for_dur, until, days, dates, from, to, weekdays } => Cmd::Allow { request_id: request_id.dup(), allow: allow.dup(), once: *once, for_dur: for_dur.dup(), until: until.dup(), days: days.dup(), dates: bytes_dup(dates), from: from.dup(), to: to.dup(), weekdays: *weekdays },
            Cmd::Deny { request_id } => Cmd::Deny { request_id: request_id.dup() },
            Cmd::Request { body, tool } => Cmd::Request { body: body.dup(), tool: tool.dup() },
            Cmd::Daemon => Cmd::Daemon,
            Cmd::Install => Cmd::Install,
            Cmd::Status => Cmd::Status,
        }
    }

    fn same(&self, other: &Self) -> (equal: bool) {
        match (self, other) {
            (Cmd::Add { tool: tool_a, allow: allow_a, once: once_a, for_dur: for_dur_a, until: until_a, days: days_a, dates: dates_a, from: from_a, to: to_a, weekdays: weekdays_a, args: args_a }, Cmd::Add { tool: tool_b, allow: allow_b, once: once_b, for_dur: for_dur_b, until: until_b, days: days_b, dates: dates_b, from: from_b, to: to_b, weekdays: weekdays_b, args: args_b }) => tool_a.same(tool_b) && allow_a.same(allow_b) && *once_a == *once_b && for_dur_a.same(for_dur_b) && until_a.same(until_b) && days_a.same(days_b) && bytes_same(dates_a, dates_b) && from_a.same(from_b) && to_a.same(to_b) && *weekdays_a == *weekdays_b && args_a.same(args_b),
            (Cmd::Exec { body: body_a, argv: argv_a, no_wait: no_wait_a }, Cmd::Exec { body: body_b, argv: argv_b, no_wait: no_wait_b }) => body_a.same(body_b) && argv_a.same(argv_b) && *no_wait_a == *no_wait_b,
            (Cmd::Pair { phrase: phrase_a, name: name_a }, Cmd::Pair { phrase: phrase_b, name: name_b }) => phrase_a.same(phrase_b) && name_a.same(name_b),
            (Cmd::Hands, Cmd::Hands) => true,
            (Cmd::Remove { tool: tool_a }, Cmd::Remove { tool: tool_b }) => tool_a.same(tool_b),
            (Cmd::Log, Cmd::Log) => true,
            (Cmd::Job(x0a), Cmd::Job(x0b)) => x0a.same(x0b),
            (Cmd::Storage(x0a), Cmd::Storage(x0b)) => x0a.same(x0b),
            (Cmd::Pin(x0a), Cmd::Pin(x0b)) => x0a.same(x0b),
            (Cmd::Pending, Cmd::Pending) => true,
            (Cmd::Allow { request_id: request_id_a, allow: allow_a, once: once_a, for_dur: for_dur_a, until: until_a, days: days_a, dates: dates_a, from: from_a, to: to_a, weekdays: weekdays_a }, Cmd::Allow { request_id: request_id_b, allow: allow_b, once: once_b, for_dur: for_dur_b, until: until_b, days: days_b, dates: dates_b, from: from_b, to: to_b, weekdays: weekdays_b }) => request_id_a.same(request_id_b) && allow_a.same(allow_b) && *once_a == *once_b && for_dur_a.same(for_dur_b) && until_a.same(until_b) && days_a.same(days_b) && bytes_same(dates_a, dates_b) && from_a.same(from_b) && to_a.same(to_b) && *weekdays_a == *weekdays_b,
            (Cmd::Deny { request_id: request_id_a }, Cmd::Deny { request_id: request_id_b }) => request_id_a.same(request_id_b),
            (Cmd::Request { body: body_a, tool: tool_a }, Cmd::Request { body: body_b, tool: tool_b }) => body_a.same(body_b) && tool_a.same(tool_b),
            (Cmd::Daemon, Cmd::Daemon) => true,
            (Cmd::Install, Cmd::Install) => true,
            (Cmd::Status, Cmd::Status) => true,
            _ => false,
        }
    }
}

} // verus!
