//! Run tools on your other machines without opening a login session.
//!
//! This crate decides: what a command line means, whether a grant admits a run,
//! what a request becomes, which records a history keeps, what may be replaced in
//! a shared directory. Reading, writing, waiting and dialling are left to callers.

pub mod cli;
pub mod crypto;
pub mod daemon;
pub mod data;
pub mod error;
pub mod exec;
pub mod grant;
pub mod history;
pub mod install;
pub mod job;
pub mod json;
pub mod laws;
pub mod limits;
pub mod local;
pub mod mesh;
pub mod notify;
pub mod order;
pub mod pair;
pub mod paths;
pub mod pin;
pub mod request;
pub mod scan;
pub mod schedule;
pub mod search;
pub mod storage;
pub mod store;
pub mod table;
pub mod tailscale;
pub mod text;
pub mod transport;
pub mod tray;
pub mod types;
pub mod words;

pub use cli::{parse_argv, Cmd, JobCommand, PinCommand, RecoveryCommand, StorageCommand};
pub use daemon::dispatch;
pub use error::{ClixError, Result};
pub use grant::{
    add, add_with_args, check, check_args, check_at, describe as describe_grant, hands, remove,
    resolve_tool,
};
pub use notify::display_present_in;
pub use pair::{phrase, sanitize_name as sanitize_body_name};
pub use paths::{socket_path, state_dir, state_file};
pub use pin::{
    PinConflictReport, PinConflictSnapshot, PinSyncStatus, RecoveryChoice, RecoveryChunk,
    RecoveryContext, RecoveryExport, RecoveryInspection, RecoveryList, RecoveryRead,
    RecoveryReceipt, RecoveryState, RecoveryUsage, RecoveryVersion, MAX_RECOVERY_BYTES,
    MAX_RECOVERY_ENTRIES, MAX_RECOVERY_PAGE,
};
pub use store::Store;
pub use tailscale::{tailscale_status, PeerAddr};
pub use tray::tray_tooltip;
pub use types::{
    BodyId, Grant, Job, JobStatus, OutboundRequest, OwnerId, Peer, Request, RequestReceipt,
    Schedule,
};
