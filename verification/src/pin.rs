//! Content-based replication of one directory. What replaces what is decided
//! here; replaced and deleted versions are retained in a recovery store, so that
//! a concurrent writer's file is never silently discarded.

pub mod content;
pub mod decide;
pub mod export;
pub mod inspect;
pub mod listing;
pub mod path;
pub mod plan;
pub mod publish;
pub mod record;
pub mod recovery;
pub mod sync;

pub use crate::store::Fingerprint;
pub use export::RecoveryExport;
pub use listing::MAX_RECOVERY_PAGE;
pub use record::{
    Change, FileMeta, Listing, PinConflictReport, PinConflictSnapshot, PinSyncStatus,
    RecoveryChoice, RecoveryChunk, RecoveryContext, RecoveryEntry, RecoveryInspection,
    RecoveryList, RecoveryRead, RecoveryReceipt, RecoveryState, RecoveryUsage, RecoveryVersion,
};
pub use recovery::{MAX_RECOVERY_BYTES, MAX_RECOVERY_ENTRIES};
