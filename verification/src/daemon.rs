//! What a command starts, and where the sidecar listens.

use vstd::prelude::*;

use crate::cli::Cmd;
use crate::cli::command::CmdModel;
use crate::error;
use crate::error::{ClixError, ErrorModel, Outcome, Result};
use crate::local::message;
use crate::local::message::{pair_request, rpc_from_cmd};
use crate::paths;
use crate::text::cat2;

verus! {

/// What a command makes this process do.
#[derive(Debug, Clone, PartialEq, Eq)]
pub enum Action {
    /// Be the sidecar.
    Serve,
    Install,
    /// Start a pairing: send this, show the phrase, and wait for the other machine.
    Invite(String),
    /// Join a pairing: send this.
    Join(String),
    /// Send this to the sidecar and show the reply.
    Call(String),
}

#[verifier::ext_equal]
pub enum ActionModel {
    Serve,
    Install,
    Invite(Seq<char>),
    Join(Seq<char>),
    Call(Seq<char>),
}

impl View for Action {
    type V = ActionModel;

    open spec fn view(&self) -> ActionModel {
        match self {
            Action::Serve => ActionModel::Serve,
            Action::Install => ActionModel::Install,
            Action::Invite(text) => ActionModel::Invite(text@),
            Action::Join(text) => ActionModel::Join(text@),
            Action::Call(text) => ActionModel::Call(text@),
        }
    }
}

impl DeepView for Action {
    type V = ActionModel;

    open spec fn deep_view(&self) -> ActionModel {
        self@
    }
}

pub open spec fn chosen(addr: Option<Seq<char>>) -> Option<Seq<char>> {
    if paths::set_to(addr) {
        addr
    } else {
        None
    }
}

/// What a command does, given an address to pair at that may be set.
pub open spec fn action_of(cmd: CmdModel, pair_addr: Option<Seq<char>>) -> Outcome<ActionModel> {
    match cmd {
        CmdModel::Daemon => Ok(ActionModel::Serve),
        CmdModel::Install => Ok(ActionModel::Install),
        CmdModel::Pair { phrase, name } => if phrase is None {
            Ok(ActionModel::Invite(message::pair_message(phrase, name, chosen(pair_addr))))
        } else {
            Ok(ActionModel::Join(message::pair_message(phrase, name, chosen(pair_addr))))
        },
        other => match message::cmd_message(other) {
            Ok(message) => Ok(ActionModel::Call(message)),
            Err(e) => Err(e),
        },
    }
}

pub fn dispatch(cmd: &Cmd, pair_addr: Option<String>) -> (result: Result<Action>)
    ensures
        error::outcome(result) == action_of(cmd@, pair_addr.deep_view()),
{
    match cmd {
        Cmd::Daemon => Ok(Action::Serve),
        Cmd::Install => Ok(Action::Install),
        Cmd::Pair { phrase, name } => {
            let mut addr: Option<String> = None;
            if let Some(given) = pair_addr {
                if !given.as_str().is_empty() {
                    addr = Some(given);
                }
            }
            let message = pair_request(phrase, name, &addr);
            if phrase.is_none() {
                Ok(Action::Invite(message))
            } else {
                Ok(Action::Join(message))
            }
        },
        other => match rpc_from_cmd(other) {
            Ok(message) => Ok(Action::Call(message)),
            Err(e) => Err(e),
        },
    }
}

/// Whether a socket file that is in the way can go: only one that nobody answers
/// at. True means that it has to be removed.
pub fn prepare_socket_path(path: &str, present: bool, answered: bool) -> (result: Result<bool>)
    ensures
        error::outcome(result) == if !present {
            Ok::<bool, ErrorModel>(false)
        } else if answered {
            Err::<bool, ErrorModel>(ErrorModel::Io("already running at "@ + path@))
        } else {
            Ok::<bool, ErrorModel>(true)
        },
{
    if !present {
        Ok(false)
    } else if answered {
        Err(ClixError::Io(cat2("already running at ", path)))
    } else {
        Ok(true)
    }
}

/// The mode of the owner socket: nobody else may connect.
pub const SOCKET_MODE: u32 = 384;

} // verus!
