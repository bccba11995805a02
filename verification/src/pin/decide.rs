//! The owner's decisions about retained versions.

use vstd::prelude::*;

use crate::data::Data;
use crate::error;
use crate::error::{usage, ErrorModel, Outcome, Result};
use crate::pin::content;
use crate::pin::content::fingerprint;
use crate::pin::inspect;
use crate::pin::inspect::version_print;
use crate::pin::plan;
use crate::pin::plan::changed;
use crate::pin::record::{
    Change, ChangeModel, RecoveryChoice, RecoveryInspection, RecoveryInspectionModel, RecoveryRead,
    RecoveryReceipt, RecoveryReceiptModel, RecoveryState, RecoveryVersion,
};
use crate::store;
use crate::store::{Store, StoreModel};
use crate::text::{cat2, owned, text_same};

verus! {

pub open spec fn stale() -> ErrorModel {
    plan::changed_error("recovery inspection is stale; inspect again"@)
}

/// Reading takes the token of a current inspection; what has no receipt has only
/// a retained version.
pub open spec fn read_outcome(
    view: RecoveryInspectionModel,
    which: RecoveryRead,
    token: Seq<char>,
) -> Outcome<()> {
    if view.token != token {
        Err(stale())
    } else if !view.recorded && which != RecoveryRead::Retained {
        Err(ErrorModel::Usage("unreferenced data has only a retained version"@))
    } else {
        Ok(())
    }
}

pub fn check_readable(view: &RecoveryInspection, which: RecoveryRead, token: &str) -> (result:
    Result<()>)
    ensures
        error::outcome(result) == read_outcome(view@, which, token@),
{
    if !text_same(&view.token, token) {
        return Err(changed("recovery inspection is stale; inspect again"));
    }
    if !view.recorded && which != RecoveryRead::Retained {
        return Err(usage("unreferenced data has only a retained version"));
    }
    Ok(())
}

/// What was read counts only if nothing changed meanwhile.
pub fn check_still(view: &RecoveryInspection, token: &str) -> (result: Result<()>)
    ensures
        error::outcome(result) == if view@.token == token@ {
            Ok::<(), ErrorModel>(())
        } else {
            Err::<(), ErrorModel>(plan::changed_error("recovery version changed while reading"@))
        },
{
    if text_same(&view.token, token) {
        Ok(())
    } else {
        Err(changed("recovery version changed while reading"))
    }
}

/// What a resolution begins with: the change that restores, if that is the choice.
pub open spec fn resolution(
    s: StoreModel,
    view: RecoveryInspectionModel,
    token: Seq<char>,
    choice: RecoveryChoice,
) -> Outcome<Option<ChangeModel>> {
    if s.write_error is Some {
        Err(store::unavailable(s.write_error->0))
    } else if view.token != token {
        Err(stale())
    } else if !view.recorded {
        Err(
            ErrorModel::Usage(
                "unreferenced data has no destination; export it or explicitly discard it"@,
            ),
        )
    } else if view.receipt.state == RecoveryState::Discarding {
        Err(
            ErrorModel::Usage("finish the interrupted discard before resolving this receipt"@),
        )
    } else if choice == RecoveryChoice::KeepLive {
        Ok(None)
    } else {
        match view.retained {
            None => Err(ErrorModel::Usage("there is no retained version to restore"@)),
            Some(source) => Ok(
                Some(
                    ChangeModel {
                        path: view.receipt.path,
                        expected: inspect::print_of_version(view.live),
                        new: Some(source.fingerprint),
                        to_remote: false,
                    },
                ),
            ),
        }
    }
}

/// Begin a resolution. An old token never authorizes anything.
pub fn begin_resolution(
    store: &Store,
    view: &RecoveryInspection,
    token: &str,
    choice: RecoveryChoice,
) -> (result: Result<Option<Change>>)
    ensures
        error::outcome(result) == resolution(store@, view@, token@, choice),
{
    if let Err(e) = store.ensure_writable() {
        return Err(e);
    }
    if !text_same(&view.token, token) {
        return Err(changed("recovery inspection is stale; inspect again"));
    }
    if !view.recorded {
        return Err(
            usage("unreferenced data has no destination; export it or explicitly discard it"),
        );
    }
    if view.receipt.state == RecoveryState::Discarding {
        return Err(usage("finish the interrupted discard before resolving this receipt"));
    }
    if choice == RecoveryChoice::KeepLive {
        return Ok(None);
    }
    match &view.retained {
        None => Err(usage("there is no retained version to restore")),
        Some(source) => Ok(
            Some(
                Change {
                    path: view.receipt.path.dup(),
                    expected: version_print(&view.live),
                    new: Some(source.fingerprint.dup()),
                    to_remote: false,
                },
            ),
        ),
    }
}

/// The bytes to restore are the inspected version, and the inspection still holds.
pub fn check_restoration(
    source: &RecoveryVersion,
    bytes: &Vec<u8>,
    again: &RecoveryInspection,
    token: &str,
) -> (result: Result<()>)
    ensures
        error::outcome(result) == if content::print_of(bytes@, source@.fingerprint.mode) != source@.fingerprint
            || again@.token != token@ {
            Err::<(), ErrorModel>(plan::changed_error("retained version changed before restoration"@))
        } else {
            Ok::<(), ErrorModel>(())
        },
{
    if !fingerprint(bytes, source.fingerprint.mode).same(&source.fingerprint) || !text_same(
        &again.token,
        token,
    ) {
        return Err(changed("retained version changed before restoration"));
    }
    Ok(())
}

/// The receipt that a resolution leaves, if nothing but the chosen restoration
/// changed in between.
pub open spec fn resolved(
    before: RecoveryInspectionModel,
    after: RecoveryInspectionModel,
    choice: RecoveryChoice,
) -> Outcome<RecoveryReceiptModel> {
    if after.receipt != before.receipt {
        Err(plan::changed_error("recovery receipt changed during resolution"@))
    } else if after.retained != before.retained {
        Err(
            plan::changed_error(
                "retained version changed during resolution; all versions were preserved"@,
            ),
        )
    } else if choice == RecoveryChoice::KeepLive && after.live != before.live {
        Err(plan::changed_error("live version changed during resolution"@))
    } else {
        Ok(
            RecoveryReceiptModel {
                expected: inspect::print_of_version(after.retained),
                replacement: inspect::print_of_version(after.live),
                state: RecoveryState::Resolved,
                ..before.receipt
            },
        )
    }
}

pub fn finish_resolution(
    before: &RecoveryInspection,
    after: &RecoveryInspection,
    choice: RecoveryChoice,
) -> (result: Result<RecoveryReceipt>)
    ensures
        error::outcome(result) == resolved(before@, after@, choice),
{
    if !after.receipt.same(&before.receipt) {
        return Err(changed("recovery receipt changed during resolution"));
    }
    if !after.retained.same(&before.retained) {
        return Err(
            changed("retained version changed during resolution; all versions were preserved"),
        );
    }
    if choice == RecoveryChoice::KeepLive && !after.live.same(&before.live) {
        return Err(changed("live version changed during resolution"));
    }
    let mut receipt = before.receipt.dup();
    receipt.expected = version_print(&after.retained);
    receipt.replacement = version_print(&after.live);
    receipt.state = RecoveryState::Resolved;
    Ok(receipt)
}

/// A discard that was interrupted goes on under the token it began with.
pub open spec fn resumes(view: RecoveryInspectionModel, token: Seq<char>) -> bool {
    view.receipt.state == RecoveryState::Discarding && view.receipt.discard_token == Some(token)
}

/// What a discard writes before it deletes anything: the journal and its name.
pub open spec fn discard_outcome(
    s: StoreModel,
    view: RecoveryInspectionModel,
    id: Seq<char>,
    token: Seq<char>,
    fresh_id: Seq<char>,
) -> Outcome<(Seq<char>, RecoveryReceiptModel)> {
    if s.write_error is Some {
        Err(store::unavailable(s.write_error->0))
    } else if view.token != token && !resumes(view, token) {
        Err(stale())
    } else if view.receipt.state == RecoveryState::Pending {
        Err(
            ErrorModel::Usage(
                "resolve the interrupted publication before discarding its retained version"@,
            ),
        )
    } else if resumes(view, token) && view.retained is Some && inspect::print_of_version(view.retained)
        != view.receipt.expected {
        Err(plan::changed_error("retained version changed during interrupted discard"@))
    } else {
        Ok(
            (
                if view.recorded {
                    id
                } else {
                    fresh_id + ".json"@
                },
                RecoveryReceiptModel {
                    state: RecoveryState::Discarding,
                    expected: inspect::print_of_version(view.retained),
                    discard_token: Some(token),
                    ..view.receipt
                },
            ),
        )
    }
}

/// Begin a discard. Nothing is deleted without the token of an inspection that
/// showed exactly this version.
pub fn begin_discard(
    store: &Store,
    view: &RecoveryInspection,
    id: &str,
    token: &str,
    fresh_id: &str,
) -> (result: Result<(String, RecoveryReceipt)>)
    ensures
        error::outcome(result) == discard_outcome(store@, view@, id@, token@, fresh_id@),
{
    if let Err(e) = store.ensure_writable() {
        return Err(e);
    }
    let recorded_token: bool = match &view.receipt.discard_token {
        Some(begun) => text_same(begun, token),
        None => false,
    };
    let resume = view.receipt.state == RecoveryState::Discarding && recorded_token;
    if !text_same(&view.token, token) && !resume {
        return Err(changed("recovery inspection is stale; inspect again"));
    }
    if view.receipt.state == RecoveryState::Pending {
        return Err(
            usage("resolve the interrupted publication before discarding its retained version"),
        );
    }
    let print = version_print(&view.retained);
    if resume && view.retained.is_some() && !print.same(&view.receipt.expected) {
        return Err(changed("retained version changed during interrupted discard"));
    }
    let journal = if view.recorded {
        owned(id)
    } else {
        cat2(fresh_id, ".json")
    };
    let mut receipt = view.receipt.dup();
    receipt.state = RecoveryState::Discarding;
    receipt.expected = print;
    receipt.discard_token = Some(owned(token));
    Ok((journal, receipt))
}

/// Just before deletion: whether there is a version to delete, which must be the
/// inspected one.
pub fn confirm_discard(current: &Option<RecoveryVersion>, inspected: &Option<RecoveryVersion>) -> (
    result: Result<bool>)
    ensures
        error::outcome(result) == if current.deep_view() != inspected.deep_view() {
            Err::<bool, ErrorModel>(plan::changed_error("retained version changed before discard"@))
        } else {
            Ok::<bool, ErrorModel>(current is Some)
        },
{
    if !current.same(inspected) {
        return Err(changed("retained version changed before discard"));
    }
    Ok(current.is_some())
}

} // verus!
