//! The command line.

pub mod command;
pub mod options;
pub mod parse;
pub mod values;

pub use command::{
    Cmd, CmdModel, JobCommand, JobCommandModel, PinCommand, PinCommandModel, RecoveryCommand,
    RecoveryCommandModel, StorageCommand, StorageCommandModel,
};
pub use parse::parse_argv;
