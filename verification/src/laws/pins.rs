//! Sharing a directory: what is never shared, and when a synchronization counts.

use vstd::prelude::*;

use crate::error::{ErrorModel, Outcome};
use crate::pin::path;
use crate::pin::plan;
use crate::pin::plan::Files;
use crate::pin::record::{ChangeModel, ListingModel};
use crate::pin::sync;
use crate::pin::sync::{SyncEventModel, SyncPhase, SyncRunModel};
use crate::store::{FingerprintModel, StoreModel};
use crate::table;
use crate::text;
use crate::types::PeerModel;

verus! {

proof fn lemma_planned_paths(
    paths: Seq<(Seq<char>, ())>,
    i: int,
    local: Files,
    remote: Files,
    baseline: Files,
    a: Seq<char>,
    b: Seq<char>,
    changes: Seq<ChangeModel>,
    merged: Files,
)
    requires
        forall|k: int| 0 <= k < changes.len() ==> path::pin_path((#[trigger] changes[k]).path),
    ensures
        plan::planned(paths, i, local, remote, baseline, a, b, changes, merged) matches Ok((all, _)) ==> (
        forall|k: int| 0 <= k < all.len() ==> path::pin_path((#[trigger] all[k]).path)),
    decreases paths.len() - i,
{
    if i < paths.len() && path::pin_path(paths[i].0) {
        let path = paths[i].0;
        let l = crate::table::lookup(local, path);
        let r = crate::table::lookup(remote, path);
        let base = crate::table::lookup(baseline, path);
        if !crate::pin::plan::disputed(l, r, base) {
            let pick = crate::pin::plan::chosen(l, r, base);
            let next = match pick {
                Some(print) => crate::table::stored(merged, path, print),
                None => merged,
            };
            let more = if l == r {
                changes
            } else if l == base {
                changes.push(ChangeModel { path, expected: l, new: r, to_remote: false })
            } else {
                changes.push(ChangeModel { path, expected: r, new: l, to_remote: true })
            };
            lemma_planned_paths(paths, i + 1, local, remote, baseline, a, b, more, next);
        }
    }
}

/// Nothing inside a `.git` directory is copied: no plan moves it either way, a
/// listing that names it is refused, and so is a write to it.
pub proof fn law_git_is_never_copied(
    path: Seq<char>,
    local: Files,
    remote: Files,
    baseline: Files,
    a: Seq<char>,
    b: Seq<char>,
    list: ListingModel,
    s: StoreModel,
    peer: PeerModel,
    expected: Option<Option<FingerprintModel>>,
    new: Option<Option<FingerprintModel>>,
    content: Option<Seq<char>>,
)
    requires
        path::excluded_path(path),
    ensures
        plan::plan_outcome(local, remote, baseline, a, b) matches Ok((changes, _)) ==> (forall|k: int|
            0 <= k < changes.len() ==> (#[trigger] changes[k]).path != path),
        (exists|k: int| 0 <= k < list.files.len() && (#[trigger] list.files[k]).0 == path)
            ==> plan::listing_outcome(list) is Err,
        sync::put_outcome(s, peer, Some(path), expected, new, content) is Err,
{
    lemma_planned_paths(
        plan::all_paths(local, remote, baseline),
        0,
        local,
        remote,
        baseline,
        a,
        b,
        Seq::empty(),
        Seq::empty(),
    );
    assert(!path::pin_path(path));
    if exists|k: int| 0 <= k < list.files.len() && (#[trigger] list.files[k]).0 == path {
        let k = choose|k: int| 0 <= k < list.files.len() && (#[trigger] list.files[k]).0 == path;
        assert(!path::pin_path(list.files[k].0));
    }
}

/// A merged tree is recorded only after this machine's own tree was seen to be
/// exactly that, before the peer committed and again afterwards.
pub proof fn law_recorded_as_seen(run: SyncRunModel, event: SyncEventModel)
    ensures
        run.after(event) matches Ok(next) ==> {
            &&& next.merged == run.merged && next.changes == run.changes
            &&& next.phase == SyncPhase::Committing && run.phase != SyncPhase::Committing ==> event
                == SyncEventModel::Scanned(run.merged) && run.done >= run.changes.len()
            &&& next.phase == SyncPhase::Recording ==> event == SyncEventModel::Scanned(run.merged)
                && run.phase == SyncPhase::Confirming
            &&& next.phase == SyncPhase::Confirming ==> run.phase == SyncPhase::Committing
            &&& next.phase == SyncPhase::Finished ==> run.phase == SyncPhase::Recording
        },
{
}

/// Every change moves a differing path from the side that changed it to the side
/// that still has the common version.
pub open spec fn moves_the_change(
    c: ChangeModel,
    l: Option<FingerprintModel>,
    r: Option<FingerprintModel>,
    base: Option<FingerprintModel>,
) -> bool {
    &&& l != r
    &&& c.to_remote ==> r == base && c.expected == r && c.new == l
    &&& !c.to_remote ==> l == base && c.expected == l && c.new == r
}

/// The changes of a plan are in the order of their paths, each on a path of the
/// plan that differs, and every path that differs has one.
proof fn lemma_planned_changes(
    paths: Seq<(Seq<char>, ())>,
    i: int,
    local: Files,
    remote: Files,
    baseline: Files,
    a: Seq<char>,
    b: Seq<char>,
    changes: Seq<ChangeModel>,
    merged: Files,
)
    requires
        table::ascending(paths),
        0 <= i <= paths.len(),
        forall|k: int|
            0 <= k < changes.len() ==> moves_the_change(
                #[trigger] changes[k],
                table::lookup(local, changes[k].path),
                table::lookup(remote, changes[k].path),
                table::lookup(baseline, changes[k].path),
            ),
        forall|k: int, m: int|
            0 <= k < changes.len() && i <= m < paths.len() ==> text::text_lt(
                (#[trigger] changes[k]).path,
                (#[trigger] paths[m]).0,
            ),
        forall|k: int, m: int|
            0 <= k < m < changes.len() ==> text::text_lt(
                (#[trigger] changes[k]).path,
                (#[trigger] changes[m]).path,
            ),
        forall|j: int|
            0 <= j < i && table::lookup(local, (#[trigger] paths[j]).0) != table::lookup(
                remote,
                paths[j].0,
            ) ==> exists|k: int|
                0 <= k < changes.len() && (#[trigger] changes[k]).path == paths[j].0,
    ensures
        plan::planned(paths, i, local, remote, baseline, a, b, changes, merged) matches Ok((all, _))
            ==> {
            &&& forall|k: int|
                0 <= k < all.len() ==> moves_the_change(
                    #[trigger] all[k],
                    table::lookup(local, all[k].path),
                    table::lookup(remote, all[k].path),
                    table::lookup(baseline, all[k].path),
                )
            &&& forall|k: int, m: int|
                0 <= k < m < all.len() ==> text::text_lt(
                    (#[trigger] all[k]).path,
                    (#[trigger] all[m]).path,
                )
            &&& forall|j: int|
                0 <= j < paths.len() && table::lookup(local, (#[trigger] paths[j]).0)
                    != table::lookup(remote, paths[j].0) ==> exists|k: int|
                    0 <= k < all.len() && (#[trigger] all[k]).path == paths[j].0
        },
    decreases paths.len() - i,
{
    if i < paths.len() {
        let path = paths[i].0;
        let l = table::lookup(local, path);
        let r = table::lookup(remote, path);
        let base = table::lookup(baseline, path);
        if path::pin_path(path) && !plan::disputed(l, r, base) {
            let next = match plan::chosen(l, r, base) {
                Some(print) => table::stored(merged, path, print),
                None => merged,
            };
            let more = if l == r {
                changes
            } else if l == base {
                changes.push(ChangeModel { path, expected: l, new: r, to_remote: false })
            } else {
                changes.push(ChangeModel { path, expected: r, new: l, to_remote: true })
            };
            assert forall|k: int, m: int| 0 <= k < more.len() && i + 1 <= m < paths.len() implies text::text_lt(
                (#[trigger] more[k]).path,
                (#[trigger] paths[m]).0,
            ) by {
                if k < changes.len() {
                    assert(more[k] == changes[k]);
                } else {
                    assert(text::text_lt(paths[i].0, paths[m].0));
                }
            }
            assert forall|k: int, m: int| 0 <= k < m < more.len() implies text::text_lt(
                (#[trigger] more[k]).path,
                (#[trigger] more[m]).path,
            ) by {
                assert(more[k] == changes[k]);
                if m == changes.len() {
                    assert(text::text_lt(changes[k].path, paths[i].0));
                } else {
                    assert(more[m] == changes[m]);
                }
            }
            assert forall|j: int|
                0 <= j < i + 1 && table::lookup(local, (#[trigger] paths[j]).0) != table::lookup(
                    remote,
                    paths[j].0,
                ) implies exists|k: int|
                0 <= k < more.len() && (#[trigger] more[k]).path == paths[j].0 by {
                if j < i {
                    let k = choose|k: int|
                        0 <= k < changes.len() && (#[trigger] changes[k]).path == paths[j].0;
                    assert(more[k].path == paths[j].0);
                } else {
                    assert(more[changes.len() as int].path == path);
                }
            }
            lemma_planned_changes(paths, i + 1, local, remote, baseline, a, b, more, next);
        }
    }
}

/// The first path that stops a plan gives its refusal.
proof fn lemma_planned_stop(
    paths: Seq<(Seq<char>, ())>,
    i: int,
    local: Files,
    remote: Files,
    baseline: Files,
    a: Seq<char>,
    b: Seq<char>,
    changes: Seq<ChangeModel>,
    merged: Files,
    stop: int,
)
    requires
        0 <= i <= stop < paths.len(),
        forall|j: int|
            i <= j < stop ==> plan::plannable((#[trigger] paths[j]).0, local, remote, baseline),
        !plan::plannable(paths[stop].0, local, remote, baseline),
    ensures
        plan::planned(paths, i, local, remote, baseline, a, b, changes, merged) == Err::<
            (Seq<ChangeModel>, Files),
            ErrorModel,
        >(
            if path::pin_path(paths[stop].0) {
                plan::conflict_error(paths[stop].0, a, b)
            } else {
                ErrorModel::Protocol("invalid pin path"@)
            },
        ),
    decreases paths.len() - i,
{
    if i < stop {
        let path = paths[i].0;
        let l = table::lookup(local, path);
        let r = table::lookup(remote, path);
        let base = table::lookup(baseline, path);
        assert(plan::plannable(paths[i].0, local, remote, baseline));
        let next = match plan::chosen(l, r, base) {
            Some(print) => table::stored(merged, path, print),
            None => merged,
        };
        let more = if l == r {
            changes
        } else if l == base {
            changes.push(ChangeModel { path, expected: l, new: r, to_remote: false })
        } else {
            changes.push(ChangeModel { path, expected: r, new: l, to_remote: true })
        };
        lemma_planned_stop(paths, i + 1, local, remote, baseline, a, b, more, next, stop);
    }
}

/// A synchronization follows the side that changed a path since both last agreed,
/// and a path that both changed differently stops it, whether or not the path was
/// there when they last agreed. What both sides get is the other side's version
/// where one's own is unchanged. Exactly the paths that differ are moved, each once,
/// away from the side that changed it and onto the version it expects to replace.
pub proof fn law_sync_follows_the_change(
    local: Files,
    remote: Files,
    baseline: Files,
    a: Seq<char>,
    b: Seq<char>,
)
    requires
        table::ascending(local),
        table::ascending(remote),
        table::ascending(baseline),
    ensures
        ({
            let result: Outcome<(Seq<ChangeModel>, Files)> = plan::plan_outcome(
                local,
                remote,
                baseline,
                a,
                b,
            );
            &&& forall|p: Seq<char>|
                #![trigger table::lookup(local, p)]
                table::lookup(local, p) != table::lookup(remote, p) && table::lookup(local, p)
                    != table::lookup(baseline, p) && table::lookup(remote, p) != table::lookup(
                    baseline,
                    p,
                ) ==> result is Err
            &&& result matches Ok((changes, merged)) ==> {
                &&& forall|p: Seq<char>|
                    #![trigger table::lookup(merged, p)]
                    {
                        &&& table::lookup(local, p) == table::lookup(baseline, p) ==> table::lookup(
                            merged,
                            p,
                        ) == table::lookup(remote, p)
                        &&& table::lookup(remote, p) == table::lookup(baseline, p)
                            ==> table::lookup(merged, p) == table::lookup(local, p)
                        &&& table::lookup(local, p) == table::lookup(remote, p) ==> table::lookup(
                            merged,
                            p,
                        ) == table::lookup(local, p)
                    }
                &&& forall|k: int|
                    0 <= k < changes.len() ==> {
                        let c = #[trigger] changes[k];
                        let l = table::lookup(local, c.path);
                        let r = table::lookup(remote, c.path);
                        let base = table::lookup(baseline, c.path);
                        &&& l != r
                        &&& c.to_remote ==> r == base && c.expected == r && c.new == l
                        &&& !c.to_remote ==> l == base && c.expected == l && c.new == r
                    }
                &&& forall|p: Seq<char>|
                    #![trigger table::lookup(local, p)]
                    table::lookup(local, p) != table::lookup(remote, p) ==> exists|k: int|
                        0 <= k < changes.len() && (#[trigger] changes[k]).path == p
                &&& forall|k: int, m: int|
                    0 <= k < m < changes.len() ==> text::text_lt(
                        (#[trigger] changes[k]).path,
                        (#[trigger] changes[m]).path,
                    )
            }
        }),
{
    let paths = plan::all_paths(local, remote, baseline);
    plan::law_plan_converges(local, remote, baseline, a, b);
    plan::lemma_all_paths(local, remote, baseline);
    lemma_planned_changes(
        paths,
        0,
        local,
        remote,
        baseline,
        a,
        b,
        Seq::empty(),
        Seq::empty(),
    );
    let result = plan::plan_outcome(local, remote, baseline, a, b);
    assert forall|p: Seq<char>|
        #![trigger table::lookup(local, p)]
        table::lookup(local, p) != table::lookup(remote, p) && table::lookup(local, p)
            != table::lookup(baseline, p) && table::lookup(remote, p) != table::lookup(
            baseline,
            p,
        ) implies result is Err by {
        assert(table::holds(local, p) || table::holds(remote, p));
        assert(!plan::plannable(p, local, remote, baseline));
    }
    if let Ok((changes, merged)) = result {
        assert forall|k: int| 0 <= k < changes.len() implies {
            let c = #[trigger] changes[k];
            let l = table::lookup(local, c.path);
            let r = table::lookup(remote, c.path);
            let base = table::lookup(baseline, c.path);
            &&& l != r
            &&& c.to_remote ==> r == base && c.expected == r && c.new == l
            &&& !c.to_remote ==> l == base && c.expected == l && c.new == r
        } by {
            assert(moves_the_change(
                changes[k],
                table::lookup(local, changes[k].path),
                table::lookup(remote, changes[k].path),
                table::lookup(baseline, changes[k].path),
            ));
        }
        assert forall|p: Seq<char>|
            #![trigger table::lookup(local, p)]
            table::lookup(local, p) != table::lookup(remote, p) implies exists|k: int|
            0 <= k < changes.len() && (#[trigger] changes[k]).path == p by {
            assert(table::holds(local, p) || table::holds(remote, p));
            assert(table::holds(paths, p));
            table::lemma_rank_bounds(paths, p);
            let j = table::rank(paths, p);
            assert(paths[j].0 == p);
        }
        assert forall|p: Seq<char>|
            #![trigger table::lookup(merged, p)]
            {
                &&& table::lookup(local, p) == table::lookup(baseline, p) ==> table::lookup(
                    merged,
                    p,
                ) == table::lookup(remote, p)
                &&& table::lookup(remote, p) == table::lookup(baseline, p) ==> table::lookup(
                    merged,
                    p,
                ) == table::lookup(local, p)
                &&& table::lookup(local, p) == table::lookup(remote, p) ==> table::lookup(merged, p)
                    == table::lookup(local, p)
            } by {}
    }
}

/// Where every path is acceptable, the plan fails exactly where some path was
/// changed on both sides, and names the first such path and both sides.
pub proof fn law_conflict_names_the_path(
    local: Files,
    remote: Files,
    baseline: Files,
    a: Seq<char>,
    b: Seq<char>,
    p: Seq<char>,
)
    requires
        table::ascending(local),
        table::ascending(remote),
        table::ascending(baseline),
        forall|q: Seq<char>|
            #![trigger path::pin_path(q)]
            table::lookup(local, q) is Some || table::lookup(remote, q) is Some || table::lookup(
                baseline,
                q,
            ) is Some ==> path::pin_path(q),
    ensures
        ({
            let apart = |q: Seq<char>|
                table::lookup(local, q) != table::lookup(remote, q) && table::lookup(local, q)
                    != table::lookup(baseline, q) && table::lookup(remote, q) != table::lookup(
                    baseline,
                    q,
                );
            let result: Outcome<(Seq<ChangeModel>, Files)> = plan::plan_outcome(
                local,
                remote,
                baseline,
                a,
                b,
            );
            &&& apart(p) && (forall|q: Seq<char>| #[trigger]
                text::text_lt(q, p) ==> !apart(q)) ==> result == Err::<
                (Seq<ChangeModel>, Files),
                ErrorModel,
            >(ErrorModel::PinConflict { path: "src/"@ + p, a, b })
            &&& (forall|q: Seq<char>| #![trigger table::lookup(local, q)] !apart(q)) ==> result is Ok
        }),
{
    let paths = plan::all_paths(local, remote, baseline);
    plan::lemma_all_paths(local, remote, baseline);
    plan::law_plan_converges(local, remote, baseline, a, b);
    let apart = |q: Seq<char>|
        table::lookup(local, q) != table::lookup(remote, q) && table::lookup(local, q)
            != table::lookup(baseline, q) && table::lookup(remote, q) != table::lookup(baseline, q);
    let result = plan::plan_outcome(local, remote, baseline, a, b);
    if apart(p) && (forall|q: Seq<char>| #[trigger] text::text_lt(q, p) ==> !apart(q)) {
        assert(table::holds(local, p) || table::holds(remote, p));
        assert(table::holds(paths, p));
        table::lemma_rank_bounds(paths, p);
        let stop = table::rank(paths, p);
        assert forall|j: int| 0 <= j < stop implies plan::plannable(
            (#[trigger] paths[j]).0,
            local,
            remote,
            baseline,
        ) by {
            let q = paths[j].0;
            assert(text::text_lt(q, p));
            assert(!apart(q));
            table::lemma_holds_at(paths, q, j);
            assert(table::holds(local, q) || table::holds(remote, q) || table::holds(baseline, q));
            assert(path::pin_path(q));
        }
        assert(path::pin_path(p));
        lemma_planned_stop(
            paths,
            0,
            local,
            remote,
            baseline,
            a,
            b,
            Seq::empty(),
            Seq::empty(),
            stop,
        );
    }
    if forall|q: Seq<char>| #![trigger table::lookup(local, q)] !apart(q) {
        assert forall|q: Seq<char>|
            (table::holds(local, q) || table::holds(remote, q) || table::holds(baseline, q))
                implies #[trigger] plan::plannable(q, local, remote, baseline) by {
            assert(!apart(q));
            assert(path::pin_path(q));
        }
    }
}

/// The version that both sides last agreed on is the one that both have recorded.
/// Where the records differ, equal trees are an agreement of their own; else nothing
/// is, and the synchronization stops.
pub proof fn law_common_version(mine: Files, theirs: Files, local: Files, remote: Files)
    ensures
        mine == theirs ==> plan::baseline_outcome(mine, theirs, local, remote) == Ok::<
            Files,
            ErrorModel,
        >(mine),
        mine != theirs && local == remote ==> plan::baseline_outcome(mine, theirs, local, remote)
            == Ok::<Files, ErrorModel>(local),
        mine != theirs && local != remote ==> plan::baseline_outcome(mine, theirs, local, remote)
            == Err::<Files, ErrorModel>(
            ErrorModel::PinConflict {
                path: "src/"@ + "(sync baseline)"@,
                a: "local baseline"@,
                b: "peer baseline"@,
            },
        ),
{
}

/// An acceptable path starts with a name, never leads upwards, and has no part of
/// the recovery store and no directory of a repository's own; every other path is
/// acceptable.
pub proof fn law_acceptable_paths(rel: Seq<char>)
    ensures
        ({
            let parts = text::pieces(rel, '/');
            let ok = path::path_outcome(rel) is Ok;
            &&& ok ==> parts[0] != ""@ && parts[0] != "."@
            &&& ok ==> !parts.contains(".."@) && !parts.contains(".clix-recovery"@)
            &&& ok ==> !parts.drop_last().contains(".git"@)
            &&& parts.len() > 0 && parts[0] != ""@ && parts[0] != "."@ && !parts.contains(".."@)
                && !parts.contains(".clix-recovery"@) && !parts.drop_last().contains(".git"@) ==> ok
        }),
{
    let parts = text::pieces(rel, '/');
    text::lemma_pieces_some(rel, '/');
    assert forall|i: int| 0 <= i < parts.len() - 1 implies #[trigger] parts[i]
        == parts.drop_last()[i] by {}
    if path::path_outcome(rel) is Ok && parts.drop_last().contains(".git"@) {
        let i = choose|i: int| 0 <= i < parts.drop_last().len() && parts.drop_last()[i] == ".git"@;
        assert(parts[i] == ".git"@);
    }
    assert forall|i: int| 0 <= i < parts.len() && #[trigger] parts[i] == ".."@ implies parts.contains(
        ".."@,
    ) by {}
    if path::excluded_parts(parts) {
        let i = choose|i: int| 0 <= i < parts.len() - 1 && #[trigger] parts[i] == ".git"@;
        assert(parts.drop_last()[i] == ".git"@);
    }
}

} // verus!
