//! Publication of one file, and the journal that goes with it.

use vstd::prelude::*;

use crate::data::Data;
use crate::error;
use crate::error::{protocol, ClixError, ErrorModel, Outcome, Result};
use crate::paths;
use crate::paths::is_same_place;
use crate::pin::content;
use crate::pin::content::fingerprint;
use crate::pin::plan;
use crate::pin::plan::changed;
use crate::pin::record::{
    Change, ChangeModel, RecoveryReceipt, RecoveryReceiptModel, RecoveryState, RecoveryUsage,
    RecoveryUsageModel,
};
use crate::pin::recovery;
use crate::pin::recovery::admit_recovery;
use crate::store;
use crate::store::{Fingerprint, FingerprintModel, Store, StoreModel};
use crate::text::{cat2, cat3, cat6};
use crate::types::GrantModel;

verus! {

/// A publication that may go ahead: write the receipt under its name, stage the
/// new content under the version, and rename, exchanging where a file is replaced.
#[derive(Debug)]
pub struct Publication {
    pub receipt_name: String,
    pub receipt: RecoveryReceipt,
    pub exchange: bool,
}

#[verifier::ext_equal]
pub struct PublicationModel {
    pub receipt_name: Seq<char>,
    pub receipt: RecoveryReceiptModel,
    pub exchange: bool,
}

impl View for Publication {
    type V = PublicationModel;

    open spec fn view(&self) -> PublicationModel {
        PublicationModel {
            receipt_name: self.receipt_name@,
            receipt: self.receipt@,
            exchange: self.exchange,
        }
    }
}

impl DeepView for Publication {
    type V = PublicationModel;

    open spec fn deep_view(&self) -> PublicationModel {
        self@
    }
}

/// New content is what its fingerprint says, with nothing but permissions in its
/// mode.
pub open spec fn content_outcome(new: Option<FingerprintModel>, data: Option<Seq<u8>>) -> Outcome<
    (),
> {
    match (new, data) {
        (None, _) => Ok(()),
        (Some(_), None) => Err(ErrorModel::Protocol("pin content missing"@)),
        (Some(print), Some(bytes)) => if print.mode & !0o777 != 0 || content::print_of(bytes, print.mode)
            != print {
            Err(ErrorModel::Protocol("invalid pin content hash or mode"@))
        } else {
            Ok(())
        },
    }
}

fn check_content(new: &Option<Fingerprint>, data: Option<&Vec<u8>>) -> (result: Result<()>)
    ensures
        error::outcome(result) == content_outcome(
            new.deep_view(),
            match data {
                Some(bytes) => Some(bytes@),
                None => None,
            },
        ),
{
    match new {
        None => Ok(()),
        Some(print) => match data {
            None => Err(protocol("pin content missing")),
            Some(bytes) => if print.mode & !0o777 != 0 || !fingerprint(bytes, print.mode).same(
                print,
            ) {
                Err(protocol("invalid pin content hash or mode"))
            } else {
                Ok(())
            },
        },
    }
}

/// The first grant, from `i` on, whose program is at a path.
pub open spec fn granted_at(
    grants: Seq<GrantModel>,
    binaries: Seq<Seq<char>>,
    destination: Seq<char>,
    i: int,
) -> Option<Seq<char>>
    decreases grants.len() - i,
{
    if i >= grants.len() || i >= binaries.len() {
        None
    } else if paths::same_place(binaries[i], destination) {
        Some(grants[i].tool)
    } else {
        granted_at(grants, binaries, destination, i + 1)
    }
}

fn find_granted(store: &Store, binaries: &Vec<String>, destination: &str) -> (tool: Option<String>)
    ensures
        tool.deep_view() == granted_at(
            store@.grants,
            binaries.deep_view(),
            destination@,
            0,
        ),
{
    let ghost gv = store@.grants;
    let ghost bv = binaries.deep_view();
    let mut i: usize = 0;
    while i < store.grants.len() && i < binaries.len()
        invariant
            i <= store.grants.len(),
            i <= binaries.len(),
            gv == store@.grants,
            bv == binaries.deep_view(),
            granted_at(gv, bv, destination@, 0) == granted_at(gv, bv, destination@, i as int),
        decreases store.grants.len() - i,
    {
        assert(gv[i as int] == store.grants@[i as int]@);
        assert(bv[i as int] == binaries@[i as int]@);
        if is_same_place(&binaries[i], destination) {
            return Some(store.grants[i].tool.dup());
        }
        i += 1;
    }
    None
}

pub open spec fn granted_error(tool: Seq<char>) -> ErrorModel {
    ErrorModel::Protocol(
        "pin would replace granted binary "@ + tool
            + ". Remove its grant on this machine before syncing, then review and add it again."@,
    )
}

/// What stands before a publication.
#[derive(Debug)]
pub struct Site {
    /// The version at the path now, and how large it is.
    pub current: Option<Fingerprint>,
    pub current_bytes: u64,
    /// Where the path is, and where each granted program is, in the order of the
    /// grants.
    pub destination: String,
    pub binaries: Vec<String>,
    pub usage: RecoveryUsage,
}

#[verifier::ext_equal]
pub struct SiteModel {
    pub current: Option<FingerprintModel>,
    pub current_bytes: u64,
    pub destination: Seq<char>,
    pub binaries: Seq<Seq<char>>,
    pub usage: RecoveryUsageModel,
}

impl View for Site {
    type V = SiteModel;

    open spec fn view(&self) -> SiteModel {
        SiteModel {
            current: self.current.deep_view(),
            current_bytes: self.current_bytes,
            destination: self.destination@,
            binaries: self.binaries.deep_view(),
            usage: self.usage@,
        }
    }
}

/// Whether a change may be published, and how. Nothing is to be done where the
/// new version is already there: a retry after publication before acknowledgement.
pub open spec fn publication(
    s: StoreModel,
    change: ChangeModel,
    data: Option<Seq<u8>>,
    site: SiteModel,
    version: Seq<char>,
    source: Option<Seq<char>>,
) -> Outcome<Option<PublicationModel>> {
    let size = match data {
        Some(bytes) => bytes.len() as int,
        None => 0,
    };
    let granted = granted_at(s.grants, site.binaries, site.destination, 0);
    let admission = recovery::admission_outcome(site.usage, recovery::capped(site.current_bytes + size), 4);
    if s.write_error is Some {
        Err(store::unavailable(s.write_error->0))
    } else if content_outcome(change.new, data) is Err {
        Err(content_outcome(change.new, data)->Err_0)
    } else if site.current == change.new {
        Ok(None)
    } else if site.current != change.expected {
        Err(plan::changed_error(change.path))
    } else if granted is Some {
        Err(granted_error(granted->0))
    } else if admission is Err {
        Err(admission->Err_0)
    } else {
        Ok(
            Some(
                PublicationModel {
                    receipt_name: version + ".json"@,
                    receipt: RecoveryReceiptModel {
                        path: change.path,
                        expected: change.expected,
                        replacement: change.new,
                        version,
                        state: RecoveryState::Pending,
                        source_receipt: source,
                        discard_token: None,
                    },
                    exchange: site.current is Some,
                },
            ),
        )
    }
}

/// Decide on a publication. `version` is a fresh ID, and `source` the receipt
/// that a restoration comes from.
pub fn prepare_publication(
    store: &Store,
    change: &Change,
    data: Option<&Vec<u8>>,
    site: &Site,
    version: String,
    source: Option<String>,
) -> (result: Result<Option<Publication>>)
    ensures
        error::outcome(result) == publication(
            store@,
            change@,
            match data {
                Some(bytes) => Some(bytes@),
                None => None,
            },
            site@,
            version@,
            source.deep_view(),
        ),
{
    if let Err(e) = store.ensure_writable() {
        return Err(e);
    }
    if let Err(e) = check_content(&change.new, data) {
        return Err(e);
    }
    if site.current.same(&change.new) {
        return Ok(None);
    }
    if !site.current.same(&change.expected) {
        return Err(changed(&change.path));
    }
    if let Some(tool) = find_granted(store, &site.binaries, &site.destination) {
        return Err(
            ClixError::Protocol(
                cat3(
                    "pin would replace granted binary ",
                    &tool,
                    ". Remove its grant on this machine before syncing, then review and add it again.",
                ),
            ),
        );
    }
    let size: u64 = match data {
        Some(bytes) => bytes.len() as u64,
        None => 0,
    };
    let extra: u64 = if site.current_bytes > u64::MAX - size {
        u64::MAX
    } else {
        site.current_bytes + size
    };
    if let Err(e) = admit_recovery(&site.usage, extra, 4) {
        return Err(e);
    }
    Ok(
        Some(
            Publication {
                receipt_name: cat2(&version, ".json"),
                receipt: RecoveryReceipt {
                    path: change.path.dup(),
                    expected: change.expected.dup(),
                    replacement: change.new.dup(),
                    version,
                    state: RecoveryState::Pending,
                    source_receipt: source,
                    discard_token: None,
                },
                exchange: site.current.is_some(),
            },
        ),
    )
}

pub open spec fn displaced_error(p: PublicationModel) -> ErrorModel {
    plan::changed_error(
        p.receipt.path + " (review .clix-recovery/"@ + p.receipt_name
            + "; previous version retained at .clix-recovery/"@ + p.receipt.version + ")"@,
    )
}

/// The receipt once the rename is done. A displaced version stays, and must be
/// the one that was expected; the journal of a mere creation is removed.
pub open spec fn settled(p: PublicationModel, displaced: Option<FingerprintModel>) -> Outcome<
    (RecoveryReceiptModel, bool),
> {
    match p.receipt.expected {
        Some(expected) => if displaced != Some(expected) {
            Err(displaced_error(p))
        } else {
            Ok((RecoveryReceiptModel { state: RecoveryState::Retained, ..p.receipt }, false))
        },
        None => Ok((RecoveryReceiptModel { state: RecoveryState::Resolved, ..p.receipt }, true)),
    }
}

/// Settle a publication: the receipt to write, and whether to remove it then.
/// It is removed only where no version was displaced.
pub fn settle_publication(p: &Publication, displaced: &Option<Fingerprint>) -> (result: Result<
    (RecoveryReceipt, bool),
>)
    ensures
        error::outcome(result) == settled(p@, displaced.deep_view()),
        result matches Ok((_, true)) ==> p@.receipt.expected is None,
{
    let mut receipt = p.receipt.dup();
    if p.receipt.expected.is_some() {
        if !displaced.same(&p.receipt.expected) {
            let mut text = cat6(
                &p.receipt.path,
                " (review .clix-recovery/",
                &p.receipt_name,
                "; previous version retained at .clix-recovery/",
                &p.receipt.version,
                ")",
            );
            return Err(changed(&text));
        }
        receipt.state = RecoveryState::Retained;
        Ok((receipt, false))
    } else {
        receipt.state = RecoveryState::Resolved;
        Ok((receipt, true))
    }
}

} // verus!
