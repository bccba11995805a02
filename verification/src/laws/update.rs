//! An update as a whole: all of it, or nothing.

use vstd::prelude::*;

use crate::error::{ErrorModel, Outcome};
use crate::history::{merge, publish};
use crate::job;
use crate::search;
use crate::storage;
use crate::storage::{CandidateModel, PayloadModel};
use crate::store;
use crate::store::StoreModel;

verus! {

/// A state after an update: what an edit made of a copy, and, once it is
/// prepared and admitted, what came of saving it.
pub open spec fn updated(
    s: StoreModel,
    edited: Outcome<StoreModel>,
    fresh_epoch: Seq<char>,
    encoded: usize,
    old_encoded: usize,
    saved: Outcome<()>,
) -> (StoreModel, Outcome<()>) {
    if store::writable_outcome(s) is Err {
        (s, store::writable_outcome(s))
    } else {
        match edited {
            Err(e) => (s, Err(e)),
            Ok(copy) => match store::replacement(s, copy, fresh_epoch) {
                Err(e) => (s, Err(e)),
                Ok(next) => if store::admission(s, next, encoded, old_encoded) is Err {
                    (s, store::admission(s, next, encoded, old_encoded))
                } else {
                    (store::settled(s, next, saved), saved)
                },
            },
        }
    }
}

/// The same but for what an update keeps up by itself: published history and its
/// bindings, and output that is pruned.
pub open spec fn kept_up(copy: StoreModel, next: StoreModel) -> bool {
    &&& next == StoreModel {
        jobs: next.jobs,
        history: next.history,
        job_certificates: next.job_certificates,
        legacy_jobs: next.legacy_jobs,
        output_pruned: next.output_pruned,
        history_pruned: next.history_pruned,
        ..copy
    }
    &&& next.jobs.len() == copy.jobs.len()
    &&& forall|i: int|
        0 <= i < copy.jobs.len() ==> crate::laws::storage::same_outcome(
            #[trigger] copy.jobs[i],
            next.jobs[i],
        )
}

proof fn lemma_kept_up_chain(a: StoreModel, b: StoreModel, c: StoreModel)
    requires
        kept_up(a, b),
        kept_up(b, c),
    ensures
        kept_up(a, c),
{
    assert forall|i: int| 0 <= i < a.jobs.len() implies crate::laws::storage::same_outcome(
        #[trigger] a.jobs[i],
        c.jobs[i],
    ) by {
        assert(crate::laws::storage::same_outcome(a.jobs[i], b.jobs[i]));
        assert(crate::laws::storage::same_outcome(b.jobs[i], c.jobs[i]));
    }
}

proof fn lemma_normalized_kept_up(s: StoreModel, i: int)
    requires
        0 <= i,
    ensures
        kept_up(s, merge::normalized_from(s, i)),
    decreases s.jobs.len() - i,
{
    if i < s.jobs.len() {
        let next = merge::normalized_job(s, i);
        assert(kept_up(s, next));
        lemma_normalized_kept_up(next, i + 1);
        lemma_kept_up_chain(s, next, merge::normalized_from(next, i + 1));
    }
}

proof fn lemma_removed_kept_up(s: StoreModel, payload: PayloadModel)
    ensures
        kept_up(s, storage::removed(s, payload).0),
{
    if let PayloadModel::Local(id) = payload {
        search::lemma_first(s.jobs, job::job_with_id(id));
    }
}

proof fn lemma_fitted_kept_up(s: StoreModel, list: Seq<CandidateModel>, i: int)
    ensures
        kept_up(s, storage::removed_until_fit(s, list, i).0),
    decreases list.len() - i,
{
    if i < list.len() && storage::retained(s) > storage::OUTPUT_BYTES {
        let (next, step) = storage::removed(s, list[i].payload);
        lemma_removed_kept_up(s, list[i].payload);
        if step is Ok {
            lemma_fitted_kept_up(next, list, i + 1);
            lemma_kept_up_chain(s, next, storage::removed_until_fit(next, list, i + 1).0);
        }
    }
}

proof fn lemma_replacement_kept_up(s: StoreModel, copy: StoreModel, fresh_epoch: Seq<char>)
    ensures
        store::replacement(s, copy, fresh_epoch) matches Ok(next) ==> kept_up(copy, next),
{
    let ready = publish::readied(copy, fresh_epoch);
    let legacy = !copy.history.initialized;
    let earlier = publish::earlier_jobs(Some(s));
    publish::lemma_published_from_frame(ready, copy.jobs, 0, legacy, earlier);
    let (published, step) = publish::refreshed(copy, Some(s), fresh_epoch);
    if step is Ok {
        assert(kept_up(copy, published));
        let unloaded = StoreModel {
            history: crate::history::HistoryModel {
                entries: merge::unloaded(published.history.entries, published.history_pruned),
                ..published.history
            },
            ..published
        };
        assert(kept_up(copy, unloaded));
        lemma_normalized_kept_up(unloaded, 0);
        let clean = merge::normalized(published);
        lemma_kept_up_chain(copy, unloaded, clean);
        lemma_fitted_kept_up(clean, storage::removable(clean), 0);
        let ready = storage::prepared(clean, s).0;
        assert(kept_up(clean, ready));
        lemma_kept_up_chain(copy, clean, ready);
    }
}

/// An update that fails leaves the state as it was. Where it was the save that
/// failed, every later update is refused before it is made. One that succeeds
/// puts the edited copy in place of the state, with its publications kept up.
pub proof fn law_update_is_all_or_nothing(
    s: StoreModel,
    edited: Outcome<StoreModel>,
    fresh_epoch: Seq<char>,
    encoded: usize,
    old_encoded: usize,
    saved: Outcome<()>,
    again: Outcome<StoreModel>,
)
    ensures
        ({
            let (after, result) = updated(s, edited, fresh_epoch, encoded, old_encoded, saved);
            &&& result is Err ==> StoreModel { write_error: s.write_error, ..after } == s
            &&& result is Ok ==> store::writable_outcome(s) is Ok && edited is Ok && saved is Ok
                && kept_up(edited->Ok_0, after) && store::replacement(s, edited->Ok_0, fresh_epoch)
                == Ok::<StoreModel, ErrorModel>(after)
            &&& store::writable_outcome(s) is Ok && edited is Err ==> result == Err::<(), ErrorModel>(
                edited->Err_0,
            ) && after == s
            &&& after.write_error != s.write_error && result is Err ==> {
                &&& saved is Err
                &&& store::writable_outcome(after) is Err
                &&& updated(after, again, fresh_epoch, encoded, old_encoded, saved) == (
                    after,
                    store::writable_outcome(after),
                )
            }
        }),
{
    if let Ok(copy) = edited {
        lemma_replacement_kept_up(s, copy, fresh_epoch);
    }
}

} // verus!
