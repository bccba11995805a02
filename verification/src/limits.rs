//! Initial admission policy. These limits bound Clix's own work; they are not
//! measured throughput promises or a sandbox for a granted tool's descendants.

use vstd::prelude::*;
use vstd::utf8::*;

use crate::error::{capacity, protocol, usage, ErrorModel, Outcome, Result};
use crate::text;
use crate::text::{text_bytes, text_has, utf8_text};
use crate::types::{Job, JobModel, JobStatus, JobStatusModel};

verus! {

pub const CHILDREN: usize = 4;

pub const DISPATCH: usize = 8;

/// Exec may call back to the other body for pin RPCs. Waiting exec requests are
/// bounded separately, leaving connection slots for those non-recursive RPCs.
pub const MESH_CONNECTIONS: usize = 16;

pub const MESH_EXEC_REQUESTS: usize = 4;

pub const OWNER_CONNECTIONS: usize = 32;

pub const OWNER_WAITERS: usize = 8;

pub const ARGV_COUNT: usize = 256;

pub const ARGV_BYTES: usize = 64 * 1024;

pub const ID_BYTES: usize = 128;

pub const TOOL_BYTES: usize = 4096;

pub const STATUS_REASON_BYTES: usize = 64 * 1024;

pub const OUTPUT_STREAM_BYTES: usize = 4 * 1024 * 1024;

pub const MESH_FRAME_BYTES: usize = 64 * 1024 * 1024;

pub const OWNER_REQUEST_BYTES: usize = 128 * 1024;

pub const IO_TIMEOUT_SECS: u64 = 10;

/// A fixed number of places, some of them taken.
#[derive(Debug)]
pub struct Slots {
    taken: usize,
    size: usize,
}

impl Slots {
    #[verifier::type_invariant]
    spec fn within(self) -> bool {
        self.taken <= self.size
    }

    pub closed spec fn taken(self) -> nat {
        self.taken as nat
    }

    pub closed spec fn size(self) -> nat {
        self.size as nat
    }

    pub fn new(size: usize) -> (slots: Slots)
        ensures
            slots.taken() == 0,
            slots.size() == size,
    {
        Slots { taken: 0, size }
    }

    /// Take a place if one is free.
    pub fn take(&mut self) -> (got: bool)
        ensures
            got == (old(self).taken() < old(self).size()),
            final(self).taken() == old(self).taken() + if got {
                1int
            } else {
                0int
            },
            final(self).size() == old(self).size(),
            final(self).taken() <= final(self).size(),
    {
        proof {
            use_type_invariant(&*self);
        }
        if self.taken < self.size {
            self.taken = self.taken + 1;
            true
        } else {
            false
        }
    }

    /// Give a taken place back.
    pub fn give(&mut self)
        requires
            old(self).taken() > 0,
        ensures
            final(self).taken() == old(self).taken() - 1,
            final(self).size() == old(self).size(),
    {
        proof {
            use_type_invariant(&*self);
        }
        self.taken = self.taken - 1;
    }
}

/// The places this sidecar hands out.
#[derive(Debug)]
pub struct Limits {
    pub children: Slots,
    pub mesh: Slots,
    pub mesh_exec: Slots,
    pub owner: Slots,
    pub waiters: Slots,
}

impl Limits {
    pub fn new() -> (limits: Limits)
        ensures
            limits.children.taken() == 0 && limits.children.size() == CHILDREN,
            limits.mesh.taken() == 0 && limits.mesh.size() == MESH_CONNECTIONS,
            limits.mesh_exec.taken() == 0 && limits.mesh_exec.size() == MESH_EXEC_REQUESTS,
            limits.owner.taken() == 0 && limits.owner.size() == OWNER_CONNECTIONS,
            limits.waiters.taken() == 0 && limits.waiters.size() == OWNER_WAITERS,
    {
        Limits {
            children: Slots::new(CHILDREN),
            mesh: Slots::new(MESH_CONNECTIONS),
            mesh_exec: Slots::new(MESH_EXEC_REQUESTS),
            owner: Slots::new(OWNER_CONNECTIONS),
            waiters: Slots::new(OWNER_WAITERS),
        }
    }

    /// A place for one execution request from the mesh.
    pub fn mesh_exec(&mut self) -> (result: Result<()>)
        ensures
            result is Ok <==> old(self).mesh_exec.taken() < old(self).mesh_exec.size(),
            result matches Err(e) ==> e@ == ErrorModel::Capacity(
                "execution admission is busy; waiting for capacity"@,
            ),
            final(self).mesh_exec.taken() == old(self).mesh_exec.taken() + if result is Ok {
                1int
            } else {
                0int
            },
            final(self).mesh_exec.size() == old(self).mesh_exec.size(),
            final(self).children == old(self).children,
            final(self).mesh == old(self).mesh,
            final(self).owner == old(self).owner,
            final(self).waiters == old(self).waiters,
    {
        if self.mesh_exec.take() {
            Ok(())
        } else {
            Err(capacity("execution admission is busy; waiting for capacity"))
        }
    }

    /// A place for one running tool.
    pub fn child(&mut self) -> (result: Result<()>)
        ensures
            result is Ok <==> old(self).children.taken() < old(self).children.size(),
            result matches Err(e) ==> e@ == ErrorModel::Capacity(
                "execution slots are busy; waiting for capacity"@,
            ),
            final(self).children.taken() == old(self).children.taken() + if result is Ok {
                1int
            } else {
                0int
            },
            final(self).children.size() == old(self).children.size(),
            final(self).mesh == old(self).mesh,
            final(self).mesh_exec == old(self).mesh_exec,
            final(self).owner == old(self).owner,
            final(self).waiters == old(self).waiters,
    {
        if self.children.take() {
            Ok(())
        } else {
            Err(capacity("execution slots are busy; waiting for capacity"))
        }
    }

    /// A place for one owner client that waits for a job.
    pub fn waiter(&mut self) -> (result: Result<()>)
        ensures
            result is Ok <==> old(self).waiters.taken() < old(self).waiters.size(),
            result matches Err(e) ==> e@ == ErrorModel::Capacity(
                "too many clients are waiting; inspect the saved job by ID"@,
            ),
            final(self).waiters.taken() == old(self).waiters.taken() + if result is Ok {
                1int
            } else {
                0int
            },
            final(self).waiters.size() == old(self).waiters.size(),
            final(self).children == old(self).children,
            final(self).mesh == old(self).mesh,
            final(self).mesh_exec == old(self).mesh_exec,
            final(self).owner == old(self).owner,
    {
        if self.waiters.take() {
            Ok(())
        } else {
            Err(capacity("too many clients are waiting; inspect the saved job by ID"))
        }
    }
}

pub open spec fn bounded_text(s: Seq<char>, max: nat) -> bool {
    0 < s.len() && text::byte_len(s) <= max && !s.contains('\0')
}

pub open spec fn identifier_outcome(id: Seq<char>) -> Outcome<()> {
    if bounded_text(id, ID_BYTES as nat) {
        Ok(())
    } else {
        Err(ErrorModel::Usage("identifier requires 1 to 128 bytes and no NUL"@))
    }
}

pub open spec fn tool_outcome(value: Seq<char>) -> Outcome<()> {
    if bounded_text(value, TOOL_BYTES as nat) {
        Ok(())
    } else {
        Err(ErrorModel::Usage("tool must contain 1 to 4096 bytes and no NUL"@))
    }
}

/// Bytes in the first `n` arguments.
pub open spec fn argv_bytes(argv: Seq<Seq<char>>, n: int) -> nat
    decreases n,
{
    if n <= 0 {
        0
    } else {
        argv_bytes(argv, n - 1) + text::byte_len(argv[n - 1])
    }
}

/// The arguments from `i` on, checked in order.
pub open spec fn arguments_outcome(argv: Seq<Seq<char>>, i: int) -> Outcome<()>
    decreases argv.len() - i,
{
    if i >= argv.len() {
        Ok(())
    } else if argv[i].contains('\0') {
        Err(ErrorModel::Usage("command arguments must not contain NUL"@))
    } else if argv_bytes(argv, i + 1) > ARGV_BYTES {
        Err(ErrorModel::Usage("command arguments exceed 64 KiB"@))
    } else {
        arguments_outcome(argv, i + 1)
    }
}

pub open spec fn invocation_outcome(id: Seq<char>, argv: Seq<Seq<char>>) -> Outcome<()> {
    if identifier_outcome(id) is Err {
        identifier_outcome(id)
    } else if argv.len() == 0 || argv.len() > ARGV_COUNT {
        Err(ErrorModel::Usage("command requires between 1 and 256 arguments"@))
    } else if tool_outcome(argv[0]) is Err {
        tool_outcome(argv[0])
    } else {
        arguments_outcome(argv, 0)
    }
}

pub open spec fn status_outcome(status: JobStatusModel) -> Outcome<()> {
    let long = match status {
        JobStatusModel::Denied { reason } => text::byte_len(reason) > STATUS_REASON_BYTES,
        JobStatusModel::Failed { reason } => text::byte_len(reason) > STATUS_REASON_BYTES,
        JobStatusModel::Uncertain { reason } => text::byte_len(reason) > STATUS_REASON_BYTES,
        _ => false,
    };
    if long {
        Err(ErrorModel::Protocol("job reason exceeds 64 KiB"@))
    } else {
        Ok(())
    }
}

pub open spec fn result_outcome(job: JobModel) -> Outcome<()> {
    if invocation_outcome(job.id, job.argv) is Err {
        invocation_outcome(job.id, job.argv)
    } else if status_outcome(job.status) is Err {
        status_outcome(job.status)
    } else if job.stdout.len() > OUTPUT_STREAM_BYTES || job.stderr.len() > OUTPUT_STREAM_BYTES {
        Err(ErrorModel::Protocol("job output exceeds 4 MiB per stream"@))
    } else {
        Ok(())
    }
}

pub fn identifier(id: &str) -> (result: Result<()>)
    ensures
        crate::error::outcome(result) == identifier_outcome(id@),
{
    if id.is_empty() || text_bytes(id) > ID_BYTES || text_has(id, '\0') {
        return Err(usage("identifier requires 1 to 128 bytes and no NUL"));
    }
    Ok(())
}

pub fn tool(value: &str) -> (result: Result<()>)
    ensures
        crate::error::outcome(result) == tool_outcome(value@),
{
    if value.is_empty() || text_bytes(value) > TOOL_BYTES || text_has(value, '\0') {
        return Err(usage("tool must contain 1 to 4096 bytes and no NUL"));
    }
    Ok(())
}

/// A job ID and its command, within the bounds that every machine accepts.
pub fn invocation(id: &str, argv: &Vec<String>) -> (result: Result<()>)
    ensures
        crate::error::outcome(result) == invocation_outcome(id@, argv.deep_view()),
{
    let ghost args = argv.deep_view();
    if let Err(e) = identifier(id) {
        return Err(e);
    }
    if argv.is_empty() || argv.len() > ARGV_COUNT {
        return Err(usage("command requires between 1 and 256 arguments"));
    }
    assert(args[0] == argv@[0]@);
    if let Err(e) = tool(argv[0].as_str()) {
        return Err(e);
    }
    let mut bytes: usize = 0;
    let mut i: usize = 0;
    while i < argv.len()
        invariant
            i <= argv.len(),
            args == argv.deep_view(),
            bytes == argv_bytes(args, i as int),
            bytes <= ARGV_BYTES,
            invocation_outcome(id@, args) == arguments_outcome(args, i as int),
        decreases argv.len() - i,
    {
        let arg = argv[i].as_str();
        assert(args[i as int] == arg@);
        if text_has(arg, '\0') {
            return Err(usage("command arguments must not contain NUL"));
        }
        let size: usize = text_bytes(arg);
        if size > ARGV_BYTES - bytes {
            return Err(usage("command arguments exceed 64 KiB"));
        }
        bytes += size;
        i += 1;
    }
    Ok(())
}

pub fn status(value: &JobStatus) -> (result: Result<()>)
    ensures
        crate::error::outcome(result) == status_outcome(value@),
{
    let long: bool = match value {
        JobStatus::Denied { reason } => text_bytes(reason) > STATUS_REASON_BYTES,
        JobStatus::Failed { reason } => text_bytes(reason) > STATUS_REASON_BYTES,
        JobStatus::Uncertain { reason } => text_bytes(reason) > STATUS_REASON_BYTES,
        _ => false,
    };
    if long {
        Err(protocol("job reason exceeds 64 KiB"))
    } else {
        Ok(())
    }
}

pub fn result(job: &Job) -> (result: Result<()>)
    ensures
        crate::error::outcome(result) == result_outcome(job@),
{
    if let Err(e) = invocation(&job.id, &job.argv) {
        return Err(e);
    }
    if let Err(e) = status(&job.status) {
        return Err(e);
    }
    if job.stdout.len() > OUTPUT_STREAM_BYTES || job.stderr.len() > OUTPUT_STREAM_BYTES {
        return Err(protocol("job output exceeds 4 MiB per stream"));
    }
    Ok(())
}

/// Why an owner's line was not taken.
#[derive(Debug, Clone, Copy, PartialEq, Eq, Structural)]
pub enum LineFault {
    TooLong,
    Incomplete,
    NotText,
}

pub open spec fn line_outcome(bytes: Seq<u8>, limit: nat) -> std::result::Result<
    Option<Seq<u8>>,
    LineFault,
> {
    if bytes.len() == 0 {
        Ok(None)
    } else if bytes.len() > limit {
        Err(LineFault::TooLong)
    } else if bytes.last() != 10 {
        Err(LineFault::Incomplete)
    } else if !valid_utf8(bytes.drop_last()) {
        Err(LineFault::NotText)
    } else {
        Ok(Some(bytes.drop_last()))
    }
}

/// One owner request, from the bytes read up to a newline or one past the limit.
/// No bytes at all mean that the client is done.
pub fn limited_line(bytes: Vec<u8>, limit: usize) -> (line: std::result::Result<
    Option<String>,
    LineFault,
>)
    ensures
        (match line {
            Ok(Some(text)) => line_outcome(bytes@, limit as nat) == Ok::<Option<Seq<u8>>, LineFault>(
                Some(encode_utf8(text@)),
            ),
            Ok(None) => line_outcome(bytes@, limit as nat) == Ok::<Option<Seq<u8>>, LineFault>(None),
            Err(fault) => line_outcome(bytes@, limit as nat) == Err::<Option<Seq<u8>>, LineFault>(
                fault,
            ),
        }),
{
    let mut bytes = bytes;
    if bytes.len() == 0 {
        return Ok(None);
    }
    if bytes.len() > limit {
        return Err(LineFault::TooLong);
    }
    if bytes[bytes.len() - 1] != 10 {
        return Err(LineFault::Incomplete);
    }
    let ghost all = bytes@;
    let _ = bytes.pop();
    assert(bytes@ =~= all.drop_last());
    match utf8_text(bytes) {
        Some(text) => Ok(Some(text)),
        None => Err(LineFault::NotText),
    }
}

pub fn owner_line(bytes: Vec<u8>) -> (line: std::result::Result<Option<String>, LineFault>)
    ensures
        (match line {
            Ok(Some(text)) => line_outcome(bytes@, OWNER_REQUEST_BYTES as nat) == Ok::<
                Option<Seq<u8>>,
                LineFault,
            >(Some(encode_utf8(text@))),
            Ok(None) => line_outcome(bytes@, OWNER_REQUEST_BYTES as nat) == Ok::<
                Option<Seq<u8>>,
                LineFault,
            >(None),
            Err(fault) => line_outcome(bytes@, OWNER_REQUEST_BYTES as nat) == Err::<
                Option<Seq<u8>>,
                LineFault,
            >(fault),
        }),
{
    limited_line(bytes, OWNER_REQUEST_BYTES)
}

} // verus!
