//! What machines say to each other: frames, errors, and what a peer may ask.

use vstd::prelude::*;

pub mod serve;

use crate::data::Data;
use crate::error;
use crate::error::{protocol, ClixError, ErrorModel, Outcome, Result};
use crate::limits::MESH_FRAME_BYTES;
use crate::text::{bytes_same, cat2, owned, text_same};

verus! {

/// How a connection starts.
#[derive(Debug, Clone, Copy, PartialEq, Eq, Structural)]
pub enum Preface {
    Pair,
    Tls,
}

/// The five bytes that open a connection for pairing.
pub open spec fn pair_preface() -> Seq<u8> {
    seq![67u8, 76u8, 88u8, 80u8, 49u8]
}

/// The five bytes that open a connection between paired machines.
pub open spec fn tls_preface() -> Seq<u8> {
    seq![67u8, 76u8, 88u8, 84u8, 49u8]
}

pub open spec fn preface_bytes(preface: Preface) -> Seq<u8> {
    match preface {
        Preface::Pair => pair_preface(),
        Preface::Tls => tls_preface(),
    }
}

/// `CLXP1` for pairing, `CLXT1` between paired machines.
pub fn preface(kind: Preface) -> (bytes: Vec<u8>)
    ensures
        bytes@ == preface_bytes(kind),
{
    let bytes: Vec<u8> = match kind {
        Preface::Pair => vec![67u8, 76u8, 88u8, 80u8, 49u8],
        Preface::Tls => vec![67u8, 76u8, 88u8, 84u8, 49u8],
    };
    assert(bytes@ =~= preface_bytes(kind));
    bytes
}

/// What the first bytes of a connection announce.
pub fn read_preface(bytes: &[u8]) -> (result: Result<Preface>)
    ensures
        (match result {
            Ok(kind) => bytes@ == preface_bytes(kind),
            Err(e) => bytes@ != pair_preface() && bytes@ != tls_preface() && e@
                == ErrorModel::Protocol("unsupported mesh protocol"@),
        }),
{
    if bytes_same(bytes, &preface(Preface::Pair)) {
        Ok(Preface::Pair)
    } else if bytes_same(bytes, &preface(Preface::Tls)) {
        Ok(Preface::Tls)
    } else {
        Err(protocol("unsupported mesh protocol"))
    }
}

/// A length as four bytes, most significant first.
pub open spec fn big_endian(n: nat) -> Seq<u8> {
    seq![
        (n / 0x1000000 % 256) as u8,
        (n / 0x10000 % 256) as u8,
        (n / 0x100 % 256) as u8,
        (n % 256) as u8,
    ]
}

pub open spec fn big_endian_value(bytes: Seq<u8>) -> nat {
    (0x1000000 * bytes[0] + 0x10000 * bytes[1] + 0x100 * bytes[2] + bytes[3]) as nat
}

pub open spec fn frame_error() -> ErrorModel {
    ErrorModel::Protocol("Clix message exceeds 64 MiB"@)
}

/// A message with its length before it.
pub fn frame(data: &Vec<u8>) -> (result: Result<Vec<u8>>)
    ensures
        (match result {
            Ok(bytes) => data@.len() <= MESH_FRAME_BYTES && bytes@ == big_endian(data@.len())
                + data@,
            Err(e) => data@.len() > MESH_FRAME_BYTES && e@ == frame_error(),
        }),
{
    if data.len() > MESH_FRAME_BYTES {
        return Err(protocol("Clix message exceeds 64 MiB"));
    }
    let n: usize = data.len();
    let mut bytes: Vec<u8> = Vec::new();
    bytes.push((n / 0x1000000 % 256) as u8);
    bytes.push((n / 0x10000 % 256) as u8);
    bytes.push((n / 0x100 % 256) as u8);
    bytes.push((n % 256) as u8);
    assert(bytes@ =~= big_endian(n as nat));
    bytes.extend_from_slice(data);
    assert(bytes@ =~= big_endian(n as nat) + data@);
    Ok(bytes)
}

/// How long a message is, from the four bytes before it.
pub fn frame_length(header: [u8; 4]) -> (result: Result<usize>)
    ensures
        error::outcome(result) == if big_endian_value(header@) > MESH_FRAME_BYTES {
            Err::<usize, ErrorModel>(frame_error())
        } else {
            Ok::<usize, ErrorModel>(big_endian_value(header@) as usize)
        },
{
    let n: u64 = 0x1000000 * header[0] as u64 + 0x10000 * header[1] as u64 + 0x100
        * header[2] as u64 + header[3] as u64;
    if n > MESH_FRAME_BYTES as u64 {
        return Err(protocol("Clix message exceeds 64 MiB"));
    }
    Ok(n as usize)
}

/// The length that a frame announces is that of its message.
pub proof fn law_frame_length(data: Seq<u8>)
    requires
        data.len() <= MESH_FRAME_BYTES,
    ensures
        big_endian_value((big_endian(data.len()) + data).take(4)) == data.len(),
        (big_endian(data.len()) + data).skip(4) == data,
{
    let n = data.len();
    let bytes = big_endian(n) + data;
    assert(bytes.take(4) =~= big_endian(n));
    assert(bytes.skip(4) =~= data);
    assert(n / 0x1000000 < 256);
    assert(0x1000000 * (n / 0x1000000 % 256) + 0x10000 * (n / 0x10000 % 256) + 0x100 * (n / 0x100
        % 256) + n % 256 == n);
}

/// What went wrong below the mesh.
#[derive(Debug, Clone, Copy, PartialEq, Eq, Structural)]
pub enum NetworkFault {
    ConnectionRefused,
    ConnectionReset,
    ConnectionAborted,
    BrokenPipe,
    TimedOut,
    NotConnected,
    UnexpectedEof,
    HostUnreachable,
    NetworkUnreachable,
    NotFound,
    Other,
}

/// Faults that mean that the other machine cannot be reached now.
pub open spec fn transient(fault: NetworkFault) -> bool {
    fault != NetworkFault::Other && fault != NetworkFault::NotFound
}

pub fn network_error(fault: NetworkFault, text: &str) -> (error: ClixError)
    ensures
        error@ == if transient(fault) {
            ErrorModel::Unreachable
        } else {
            ErrorModel::Protocol("mesh transport failed: "@ + text@)
        },
{
    match fault {
        NetworkFault::Other => ClixError::Protocol(cat2("mesh transport failed: ", text)),
        NetworkFault::NotFound => ClixError::Protocol(cat2("mesh transport failed: ", text)),
        _ => ClixError::Unreachable,
    }
}

/// A failed connection to the owner socket.
pub fn connect_err(fault: NetworkFault, text: &str) -> (error: ClixError)
    ensures
        error@ == if fault == NetworkFault::NotFound || fault == NetworkFault::ConnectionRefused {
            ErrorModel::NoDaemon
        } else {
            ErrorModel::Io(text@)
        },
{
    match fault {
        NetworkFault::NotFound => ClixError::NoDaemon,
        NetworkFault::ConnectionRefused => ClixError::NoDaemon,
        _ => ClixError::Io(owned(text)),
    }
}

/// A rejection as it travels: what kind it is and what it says.
#[derive(Debug, Clone, PartialEq, Eq)]
pub struct Rejection {
    pub kind: Option<String>,
    pub error: Option<String>,
    pub path: Option<String>,
    pub a: Option<String>,
    pub b: Option<String>,
}

#[verifier::ext_equal]
pub struct RejectionModel {
    pub kind: Option<Seq<char>>,
    pub error: Option<Seq<char>>,
    pub path: Option<Seq<char>>,
    pub a: Option<Seq<char>>,
    pub b: Option<Seq<char>>,
}

impl View for Rejection {
    type V = RejectionModel;

    open spec fn view(&self) -> RejectionModel {
        RejectionModel {
            kind: self.kind.deep_view(),
            error: self.error.deep_view(),
            path: self.path.deep_view(),
            a: self.a.deep_view(),
            b: self.b.deep_view(),
        }
    }
}

pub open spec fn plain_rejection(kind: Option<Seq<char>>, error: Option<Seq<char>>) -> RejectionModel {
    RejectionModel { kind, error, path: None, a: None, b: None }
}

/// How an error is told to a peer.
pub open spec fn rejected(error: ErrorModel) -> RejectionModel {
    match error {
        ErrorModel::Capacity(reason) => plain_rejection(Some("capacity"@), Some(reason)),
        ErrorModel::Unreachable => plain_rejection(
            Some("unreachable"@),
            Some("machine is unreachable"@),
        ),
        ErrorModel::PinConflict { path, a, b } => RejectionModel {
            kind: Some("pin_conflict"@),
            error: None,
            path: Some(path),
            a: Some(a),
            b: Some(b),
        },
        other => plain_rejection(None, Some(other.message())),
    }
}

/// What a peer's rejection means here.
pub open spec fn understood(r: RejectionModel) -> ErrorModel {
    if r.kind == Some("capacity"@) {
        ErrorModel::Capacity(
            match r.error {
                Some(reason) => reason,
                None => "peer is at capacity"@,
            },
        )
    } else if r.kind == Some("unreachable"@) {
        ErrorModel::Unreachable
    } else if r.kind == Some("pin_conflict"@) {
        if r.path is Some && r.a is Some && r.b is Some {
            ErrorModel::PinConflict { path: r.path->0, a: r.a->0, b: r.b->0 }
        } else {
            ErrorModel::Protocol("invalid conflict response"@)
        }
    } else {
        ErrorModel::Protocol(
            match r.error {
                Some(text) => text,
                None => "peer rejected request"@,
            },
        )
    }
}

pub fn reject(error: &ClixError) -> (told: Rejection)
    ensures
        told@ == rejected(error@),
{
    match error {
        ClixError::Capacity(reason) => Rejection {
            kind: Some(owned("capacity")),
            error: Some(reason.dup()),
            path: None,
            a: None,
            b: None,
        },
        ClixError::Unreachable => Rejection {
            kind: Some(owned("unreachable")),
            error: Some(owned("machine is unreachable")),
            path: None,
            a: None,
            b: None,
        },
        ClixError::PinConflict { path, a, b } => Rejection {
            kind: Some(owned("pin_conflict")),
            error: None,
            path: Some(path.dup()),
            a: Some(a.dup()),
            b: Some(b.dup()),
        },
        other => Rejection {
            kind: None,
            error: Some(other.message()),
            path: None,
            a: None,
            b: None,
        },
    }
}

fn is_kind(kind: &Option<String>, wanted: &str) -> (yes: bool)
    ensures
        yes == (kind.deep_view() == Some(wanted@)),
{
    match kind {
        Some(kind) => text_same(kind, wanted),
        None => false,
    }
}

fn text_or(text: Option<String>, other: &str) -> (chosen: String)
    ensures
        chosen@ == match text.deep_view() {
            Some(t) => t,
            None => other@,
        },
{
    match text {
        Some(text) => text,
        None => owned(other),
    }
}

pub fn understand(told: Rejection) -> (error: ClixError)
    ensures
        error@ == understood(told@),
{
    if is_kind(&told.kind, "capacity") {
        ClixError::Capacity(text_or(told.error, "peer is at capacity"))
    } else if is_kind(&told.kind, "unreachable") {
        ClixError::Unreachable
    } else if is_kind(&told.kind, "pin_conflict") {
        match (told.path, told.a, told.b) {
            (Some(path), Some(a), Some(b)) => ClixError::PinConflict { path, a, b },
            _ => protocol("invalid conflict response"),
        }
    } else {
        ClixError::Protocol(text_or(told.error, "peer rejected request"))
    }
}

/// A peer's error arrives as what it is where it decides what happens next, and
/// otherwise with the words that it had.
pub proof fn law_rejection_arrives(error: ErrorModel)
    ensures
        understood(rejected(error)) == match error {
            ErrorModel::Capacity(reason) => error,
            ErrorModel::Unreachable => error,
            ErrorModel::PinConflict { path, a, b } => error,
            other => ErrorModel::Protocol(other.message()),
        },
{
    reveal_strlit("capacity");
    reveal_strlit("unreachable");
    reveal_strlit("pin_conflict");
    assert("capacity"@.len() == 8);
    assert("unreachable"@.len() == 11);
    assert("pin_conflict"@.len() == 12);
}

/// What a peer may ask for.
#[derive(Debug, Clone, Copy, PartialEq, Eq, Structural)]
pub enum MeshOp {
    ExecV2,
    JobGetV2,
    HistoryPage,
    Exec,
    JobGet,
    Request,
    PinList,
    PinGet,
    PinPut,
    PinCommit,
}

pub open spec fn op_outcome(op: Seq<char>) -> Outcome<MeshOp> {
    if op == "exec_v2"@ {
        Ok(MeshOp::ExecV2)
    } else if op == "job_get_v2"@ {
        Ok(MeshOp::JobGetV2)
    } else if op == "history_page"@ {
        Ok(MeshOp::HistoryPage)
    } else if op == "exec"@ {
        Ok(MeshOp::Exec)
    } else if op == "job_get"@ {
        Ok(MeshOp::JobGet)
    } else if op == "request"@ {
        Ok(MeshOp::Request)
    } else if op == "pin_list"@ {
        Ok(MeshOp::PinList)
    } else if op == "pin_get"@ {
        Ok(MeshOp::PinGet)
    } else if op == "pin_put"@ {
        Ok(MeshOp::PinPut)
    } else if op == "pin_commit"@ {
        Ok(MeshOp::PinCommit)
    } else {
        Err(ErrorModel::Usage(op + " is not allowed over the mesh"@))
    }
}

impl DeepView for MeshOp {
    type V = MeshOp;

    open spec fn deep_view(&self) -> MeshOp {
        *self
    }
}

/// The operation that a peer names. No owner operation is among them.
pub fn mesh_op(op: &str) -> (result: Result<MeshOp>)
    ensures
        error::outcome(result) == op_outcome(op@),
{
    if text_same(op, "exec_v2") {
        Ok(MeshOp::ExecV2)
    } else if text_same(op, "job_get_v2") {
        Ok(MeshOp::JobGetV2)
    } else if text_same(op, "history_page") {
        Ok(MeshOp::HistoryPage)
    } else if text_same(op, "exec") {
        Ok(MeshOp::Exec)
    } else if text_same(op, "job_get") {
        Ok(MeshOp::JobGet)
    } else if text_same(op, "request") {
        Ok(MeshOp::Request)
    } else if text_same(op, "pin_list") {
        Ok(MeshOp::PinList)
    } else if text_same(op, "pin_get") {
        Ok(MeshOp::PinGet)
    } else if text_same(op, "pin_put") {
        Ok(MeshOp::PinPut)
    } else if text_same(op, "pin_commit") {
        Ok(MeshOp::PinCommit)
    } else {
        Err(ClixError::Usage(cat2(op, " is not allowed over the mesh")))
    }
}

} // verus!
