//! Verified history is a read-only replica, never an execution queue.
//!
//! The origin owns the invocation and delivery observations; the runner owns
//! acceptance and outcome. Signatures survive relaying. Only explicit pairing
//! supplies trusted keys. Old records are labelled observations, not retroactive
//! proof that another machine signed an invocation or a result.

pub mod diagnostics;
pub mod merge;
pub mod page;
pub mod publish;
pub mod record;
pub mod sync;
pub mod views;
pub mod wire;

pub use diagnostics::{diagnostics, Diagnostics, PeerDiagnostics};
pub use merge::{
    accept_runner_reply, bind_admission, execution_reply, export_entry, for_job, ingest,
    merge_fact, normalize_output, take_output,
};
pub use page::{
    authors_known, check_page, contacted, merge_page, page, page_step, peer_progress,
    published_text, scan_boundary, PageStep, PAGE_BYTES, PAGE_ROWS,
};
pub use publish::{matches_job, next_change, output_matches, refresh_owned};
pub use record::{
    Invocation, InvocationModel, Certificate, CertificateModel, Role, OutputRef, OutputRefModel,
    Fact, FactModel, SignedFact, SignedFactModel, Record, RecordModel, CapturedOutput,
    CapturedOutputModel, Entry, EntryModel, Progress, ProgressModel, History, HistoryModel,
    Published, PublishedModel, Page, PageModel, Observation, ObservationModel, JobView,
    JobViewModel,
};
pub use sync::{ask_page, take_page, PageAsk, PageTaken, SYNC_ROUNDS};
pub use views::{projected, views, views_for_job};
pub use wire::{
    authorize_execution, find_peer, invocation_hash, known_key, public_key, validate_fact,
    validate_invocation, validate_record,
};
