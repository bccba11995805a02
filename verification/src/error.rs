//! Everything that can go wrong, and the words for it.

use vstd::prelude::*;
use vstd::string::*;

use crate::data::Data;
use crate::text;
use crate::text::{cat2, cat3, cat4, cat5, cat6, owned, signed_text};

verus! {

#[derive(Debug, Clone, PartialEq, Eq)]
#[non_exhaustive]
pub enum ClixError {
    Usage(String),
    Io(String),
    Json(String),
    GrantBusy {
        tool: String,
    },
    ToolExit(i32),
    Unreachable,
    Protocol(String),
    Capacity(String),
    NoDaemon,
    NoSuchTool {
        tool: String,
    },
    NotAdded {
        tool: String,
        body: String,
    },
    NotAllowed {
        tool: String,
        from: String,
        body: String,
    },
    Expired {
        tool: String,
        body: String,
    },
    NotAddedAtTime {
        tool: String,
        body: String,
    },
    PinConflict {
        path: String,
        a: String,
        b: String,
    },
}

/// What a `ClixError` says.
#[verifier::ext_equal]
pub enum ErrorModel {
    Usage(Seq<char>),
    Io(Seq<char>),
    Json(Seq<char>),
    GrantBusy {
        tool: Seq<char>,
    },
    ToolExit(i32),
    Unreachable,
    Protocol(Seq<char>),
    Capacity(Seq<char>),
    NoDaemon,
    NoSuchTool {
        tool: Seq<char>,
    },
    NotAdded {
        tool: Seq<char>,
        body: Seq<char>,
    },
    NotAllowed {
        tool: Seq<char>,
        from: Seq<char>,
        body: Seq<char>,
    },
    Expired {
        tool: Seq<char>,
        body: Seq<char>,
    },
    NotAddedAtTime {
        tool: Seq<char>,
        body: Seq<char>,
    },
    PinConflict {
        path: Seq<char>,
        a: Seq<char>,
        b: Seq<char>,
    },
}

impl View for ClixError {
    type V = ErrorModel;

    open spec fn view(&self) -> ErrorModel {
        match self {
            ClixError::Usage(x0) => ErrorModel::Usage(x0.deep_view()),
            ClixError::Io(x0) => ErrorModel::Io(x0.deep_view()),
            ClixError::Json(x0) => ErrorModel::Json(x0.deep_view()),
            ClixError::GrantBusy { tool } => ErrorModel::GrantBusy { tool: tool.deep_view() },
            ClixError::ToolExit(x0) => ErrorModel::ToolExit(*x0),
            ClixError::Unreachable => ErrorModel::Unreachable,
            ClixError::Protocol(x0) => ErrorModel::Protocol(x0.deep_view()),
            ClixError::Capacity(x0) => ErrorModel::Capacity(x0.deep_view()),
            ClixError::NoDaemon => ErrorModel::NoDaemon,
            ClixError::NoSuchTool { tool } => ErrorModel::NoSuchTool { tool: tool.deep_view() },
            ClixError::NotAdded { tool, body } => ErrorModel::NotAdded { tool: tool.deep_view(), body: body.deep_view() },
            ClixError::NotAllowed { tool, from, body } => ErrorModel::NotAllowed { tool: tool.deep_view(), from: from.deep_view(), body: body.deep_view() },
            ClixError::Expired { tool, body } => ErrorModel::Expired { tool: tool.deep_view(), body: body.deep_view() },
            ClixError::NotAddedAtTime { tool, body } => ErrorModel::NotAddedAtTime { tool: tool.deep_view(), body: body.deep_view() },
            ClixError::PinConflict { path, a, b } => ErrorModel::PinConflict { path: path.deep_view(), a: a.deep_view(), b: b.deep_view() },
        }
    }
}

impl DeepView for ClixError {
    type V = ErrorModel;

    open spec fn deep_view(&self) -> ErrorModel {
        self@
    }
}

impl Data for ClixError {
    fn dup(&self) -> (copy: Self) {
        match self {
            ClixError::Usage(x0) => ClixError::Usage(x0.dup()),
            ClixError::Io(x0) => ClixError::Io(x0.dup()),
            ClixError::Json(x0) => ClixError::Json(x0.dup()),
            ClixError::GrantBusy { tool } => ClixError::GrantBusy { tool: tool.dup() },
            ClixError::ToolExit(x0) => ClixError::ToolExit(*x0),
            ClixError::Unreachable => ClixError::Unreachable,
            ClixError::Protocol(x0) => ClixError::Protocol(x0.dup()),
            ClixError::Capacity(x0) => ClixError::Capacity(x0.dup()),
            ClixError::NoDaemon => ClixError::NoDaemon,
            ClixError::NoSuchTool { tool } => ClixError::NoSuchTool { tool: tool.dup() },
            ClixError::NotAdded { tool, body } => ClixError::NotAdded { tool: tool.dup(), body: body.dup() },
            ClixError::NotAllowed { tool, from, body } => ClixError::NotAllowed { tool: tool.dup(), from: from.dup(), body: body.dup() },
            ClixError::Expired { tool, body } => ClixError::Expired { tool: tool.dup(), body: body.dup() },
            ClixError::NotAddedAtTime { tool, body } => ClixError::NotAddedAtTime { tool: tool.dup(), body: body.dup() },
            ClixError::PinConflict { path, a, b } => ClixError::PinConflict { path: path.dup(), a: a.dup(), b: b.dup() },
        }
    }

    fn same(&self, other: &Self) -> (equal: bool) {
        match (self, other) {
            (ClixError::Usage(a), ClixError::Usage(b)) => a.same(b),
            (ClixError::Io(a), ClixError::Io(b)) => a.same(b),
            (ClixError::Json(a), ClixError::Json(b)) => a.same(b),
            (ClixError::GrantBusy { tool: tool_a }, ClixError::GrantBusy { tool: tool_b }) => tool_a.same(tool_b),
            (ClixError::ToolExit(a), ClixError::ToolExit(b)) => *a == *b,
            (ClixError::Unreachable, ClixError::Unreachable) => true,
            (ClixError::Protocol(a), ClixError::Protocol(b)) => a.same(b),
            (ClixError::Capacity(a), ClixError::Capacity(b)) => a.same(b),
            (ClixError::NoDaemon, ClixError::NoDaemon) => true,
            (ClixError::NoSuchTool { tool: tool_a }, ClixError::NoSuchTool { tool: tool_b }) => tool_a.same(tool_b),
            (ClixError::NotAdded { tool: tool_a, body: body_a }, ClixError::NotAdded { tool: tool_b, body: body_b }) => tool_a.same(tool_b) && body_a.same(body_b),
            (ClixError::NotAllowed { tool: tool_a, from: from_a, body: body_a }, ClixError::NotAllowed { tool: tool_b, from: from_b, body: body_b }) => tool_a.same(tool_b) && from_a.same(from_b) && body_a.same(body_b),
            (ClixError::Expired { tool: tool_a, body: body_a }, ClixError::Expired { tool: tool_b, body: body_b }) => tool_a.same(tool_b) && body_a.same(body_b),
            (ClixError::NotAddedAtTime { tool: tool_a, body: body_a }, ClixError::NotAddedAtTime { tool: tool_b, body: body_b }) => tool_a.same(tool_b) && body_a.same(body_b),
            (ClixError::PinConflict { path: path_a, a: a_a, b: b_a }, ClixError::PinConflict { path: path_b, a: a_b, b: b_b }) => path_a.same(path_b) && a_a.same(a_b) && b_a.same(b_b),
            _ => false,
        }
    }
}

pub type Result<T> = std::result::Result<T, ClixError>;

/// What a fallible call comes to: its value's meaning, or what went wrong.
pub type Outcome<T> = std::result::Result<T, ErrorModel>;

/// The meaning of a result.
pub open spec fn outcome<T: DeepView>(result: Result<T>) -> Outcome<T::V> {
    match result {
        Ok(value) => Ok(value.deep_view()),
        Err(error) => Err(error@),
    }
}

impl ErrorModel {
    /// The sentence shown to a person.
    pub open spec fn message(self) -> Seq<char> {
        match self {
            ErrorModel::Usage(text) => text,
            ErrorModel::Io(text) => text,
            ErrorModel::Json(text) => text,
            ErrorModel::GrantBusy { tool } => tool + " already has a reserved single-use run"@,
            ErrorModel::ToolExit(code) => "command exited "@ + text::signed_decimal(code as int),
            ErrorModel::Unreachable => "body is unreachable"@,
            ErrorModel::Protocol(text) => text,
            ErrorModel::Capacity(text) => text,
            ErrorModel::NoDaemon => "Clix is not running. clix install"@,
            ErrorModel::NoSuchTool { tool } => "no such tool: "@ + tool,
            ErrorModel::NotAdded { tool, body } => tool + " is not added on "@ + body,
            ErrorModel::NotAllowed { tool, from, body } => from + " is not allowed to use "@ + tool
                + " on "@ + body,
            ErrorModel::Expired { tool, body } => tool + " grant on "@ + body + " has expired"@,
            ErrorModel::NotAddedAtTime { tool, body } => tool + " is not added on "@ + body
                + " at this time"@,
            ErrorModel::PinConflict { path, a, b } => "pin conflict: "@ + path + " ("@ + a + " and "@
                + b + " both wrote). Not merging."@,
        }
    }
}

impl ClixError {
    /// The sentence shown to a person.
    pub fn message(&self) -> (text: String)
        ensures
            text@ == self@.message(),
    {
        match self {
            ClixError::Usage(text) => text.clone(),
            ClixError::Io(text) => text.clone(),
            ClixError::Json(text) => text.clone(),
            ClixError::GrantBusy { tool } => cat2(tool, " already has a reserved single-use run"),
            ClixError::ToolExit(code) => cat2("command exited ", signed_text(*code).as_str()),
            ClixError::Unreachable => owned("body is unreachable"),
            ClixError::Protocol(text) => text.clone(),
            ClixError::Capacity(text) => text.clone(),
            ClixError::NoDaemon => owned("Clix is not running. clix install"),
            ClixError::NoSuchTool { tool } => cat2("no such tool: ", tool),
            ClixError::NotAdded { tool, body } => cat3(tool, " is not added on ", body),
            ClixError::NotAllowed { tool, from, body } => cat5(
                from,
                " is not allowed to use ",
                tool,
                " on ",
                body,
            ),
            ClixError::Expired { tool, body } => cat4(tool, " grant on ", body, " has expired"),
            ClixError::NotAddedAtTime { tool, body } => cat4(
                tool,
                " is not added on ",
                body,
                " at this time",
            ),
            ClixError::PinConflict { path, a, b } => {
                let mut text = cat6("pin conflict: ", path, " (", a, " and ", b);
                text.append(" both wrote). Not merging.");
                text
            },
        }
    }
}

pub fn usage(message: &str) -> (error: ClixError)
    ensures
        error@ == ErrorModel::Usage(message@),
{
    ClixError::Usage(owned(message))
}

pub fn protocol(message: &str) -> (error: ClixError)
    ensures
        error@ == ErrorModel::Protocol(message@),
{
    ClixError::Protocol(owned(message))
}

pub fn capacity(message: &str) -> (error: ClixError)
    ensures
        error@ == ErrorModel::Capacity(message@),
{
    ClixError::Capacity(owned(message))
}

} // verus!
