//! One exchange of history with a peer: what to ask for, and what to make of the
//! answer. An answer that comes too late changes nothing.

use vstd::prelude::*;

use crate::data::Data;
use crate::error;
use crate::error::{ClixError, ErrorModel, Outcome, Result};
use crate::history::page;
use crate::history::page::{
    check_page, merge_page, page_step, peer_progress, scan_boundary, PageStep,
};
use crate::history::record::{Page, PageModel, Progress, ProgressModel};
use crate::store;
use crate::store::{Store, StoreModel};
use crate::types::{Peer, PeerModel};

verus! {

/// How many pages one exchange reads at most.
pub const SYNC_ROUNDS: usize = 16;

/// A request for a page, with what was known when it was made.
#[derive(Debug, Clone)]
pub struct PageAsk {
    pub addr: String,
    pub progress: Progress,
    pub trust: String,
    /// Where the scan under way ends, if one is.
    pub high: Option<u64>,
}

#[verifier::ext_equal]
pub struct PageAskModel {
    pub addr: Seq<char>,
    pub progress: ProgressModel,
    pub trust: Seq<char>,
    pub high: Option<u64>,
}

impl View for PageAsk {
    type V = PageAskModel;

    open spec fn view(&self) -> PageAskModel {
        PageAskModel {
            addr: self.addr@,
            progress: self.progress@,
            trust: self.trust@,
            high: self.high,
        }
    }
}

impl DeepView for PageAsk {
    type V = PageAskModel;

    open spec fn deep_view(&self) -> PageAskModel {
        self@
    }
}

/// An unfinished scan goes on to the boundary that it started with.
pub open spec fn boundary(progress: ProgressModel) -> Option<u64> {
    if !progress.complete && progress.epoch.len() > 0 {
        Some(progress.high)
    } else {
        None
    }
}

pub open spec fn ask_outcome(s: StoreModel, peer: PeerModel) -> Outcome<PageAskModel> {
    match store::writable_outcome(s) {
        Err(e) => Err(e),
        Ok(_) => match peer.addr {
            None => Err(ErrorModel::Unreachable),
            Some(addr) => {
                let progress = page::progress_of(s, peer.name);
                Ok(PageAskModel { addr, progress, trust: s.history.trust, high: boundary(progress) })
            },
        },
    }
}

/// What to ask a peer for next.
pub fn ask_page(store: &Store, peer: &Peer) -> (result: Result<PageAsk>)
    ensures
        error::outcome(result) == ask_outcome(store@, peer@),
{
    if let Err(e) = store.ensure_writable() {
        return Err(e);
    }
    match &peer.addr {
        None => Err(ClixError::Unreachable),
        Some(addr) => {
            let progress = peer_progress(store, &peer.name.0);
            let high: Option<u64> = scan_boundary(&progress);
            Ok(PageAsk { addr: addr.dup(), progress, trust: store.history.trust.dup(), high })
        },
    }
}

/// What an answered page calls for.
#[derive(Debug)]
pub enum PageTaken {
    /// Trust or progress moved on meanwhile: ask again.
    Stale,
    /// Nothing new; only the contact is to be noted.
    Same,
    /// Save this state; the contact is to be noted then.
    Save(Store),
}

#[verifier::ext_equal]
pub enum PageTakenModel {
    Stale,
    Same,
    Save(StoreModel),
}

impl View for PageTaken {
    type V = PageTakenModel;

    open spec fn view(&self) -> PageTakenModel {
        match self {
            PageTaken::Stale => PageTakenModel::Stale,
            PageTaken::Same => PageTakenModel::Same,
            PageTaken::Save(next) => PageTakenModel::Save(next@),
        }
    }
}

impl DeepView for PageTaken {
    type V = PageTakenModel;

    open spec fn deep_view(&self) -> PageTakenModel {
        self@
    }
}

pub open spec fn taken_outcome(
    s: StoreModel,
    peer: Seq<char>,
    ask: PageAskModel,
    page: PageModel,
) -> Outcome<PageTakenModel> {
    match page::page_check(ask.progress, page) {
        Err(e) => Err(e),
        Ok(_) => match page::page_step_of(s, peer, ask.progress, ask.trust, page) {
            PageStep::Retry => Ok(PageTakenModel::Stale),
            PageStep::Nothing => Ok(PageTakenModel::Same),
            PageStep::Merge => {
                let (next, merged) = page::page_merged(s, peer, ask.progress, page);
                match merged {
                    Ok(_) => Ok(PageTakenModel::Save(next)),
                    Err(e) => Err(e),
                }
            },
        },
    }
}

/// Check a page against what was asked, and take it in on a copy.
pub fn take_page(store: &Store, peer: &str, ask: &PageAsk, page: &Page) -> (result: Result<
    PageTaken,
>)
    ensures
        error::outcome(result) == taken_outcome(store@, peer@, ask@, page@),
{
    if let Err(e) = check_page(&ask.progress, page) {
        return Err(e);
    }
    match page_step(store, peer, &ask.progress, &ask.trust, page) {
        PageStep::Retry => Ok(PageTaken::Stale),
        PageStep::Nothing => Ok(PageTaken::Same),
        PageStep::Merge => {
            let mut next = store.dup();
            match merge_page(&mut next, peer, &ask.progress, page) {
                Ok(_) => Ok(PageTaken::Save(next)),
                Err(e) => Err(e),
            }
        },
    }
}

} // verus!
