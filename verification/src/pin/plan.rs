//! What a synchronization changes on either side.

use vstd::prelude::*;

use crate::data::Data;
use crate::error;
use crate::error::{protocol, ClixError, ErrorModel, Outcome, Result};
use crate::pin::path;
use crate::pin::path::valid_path;
use crate::pin::record::{Change, ChangeModel, Listing, ListingModel};
use crate::store::{Fingerprint, FingerprintModel};
use crate::table;
use crate::table::Table;
use crate::text::{cat2, owned};

verus! {

/// The most entries that a scan or a listing may hold.
pub const MAX_PIN_ENTRIES: usize = 4096;

/// Paths and the versions found there.
pub type Files = Seq<(Seq<char>, FingerprintModel)>;

pub open spec fn conflict_error(path: Seq<char>, a: Seq<char>, b: Seq<char>) -> ErrorModel {
    ErrorModel::PinConflict { path: "src/"@ + path, a, b }
}

pub fn conflict(path: &str, a: &str, b: &str) -> (error: ClixError)
    ensures
        error@ == conflict_error(path@, a@, b@),
{
    ClixError::PinConflict { path: cat2("src/", path), a: owned(a), b: owned(b) }
}

pub open spec fn changed_error(path: Seq<char>) -> ErrorModel {
    conflict_error(path, "scanned version"@, "current version"@)
}

pub fn changed(path: &str) -> (error: ClixError)
    ensures
        error@ == changed_error(path@),
{
    conflict(path, "scanned version", "current version")
}

/// A set of paths with those of a table, from `i` on.
pub open spec fn with_paths(found: Seq<(Seq<char>, ())>, rows: Files, i: int) -> Seq<
    (Seq<char>, ()),
>
    decreases rows.len() - i,
{
    if i >= rows.len() {
        found
    } else {
        with_paths(table::stored(found, rows[i].0, ()), rows, i + 1)
    }
}

/// Every path in any of three tables, in order.
pub open spec fn all_paths(local: Files, remote: Files, baseline: Files) -> Seq<(Seq<char>, ())> {
    with_paths(with_paths(with_paths(Seq::empty(), local, 0), remote, 0), baseline, 0)
}

/// Neither side agrees with the other or with their last common version.
pub open spec fn disputed(
    l: Option<FingerprintModel>,
    r: Option<FingerprintModel>,
    base: Option<FingerprintModel>,
) -> bool {
    l != r && l != base && r != base
}

/// The version that both sides shall have: the one that was changed.
pub open spec fn chosen(
    l: Option<FingerprintModel>,
    r: Option<FingerprintModel>,
    base: Option<FingerprintModel>,
) -> Option<FingerprintModel> {
    if l == base {
        r
    } else {
        l
    }
}

pub open spec fn planned(
    paths: Seq<(Seq<char>, ())>,
    i: int,
    local: Files,
    remote: Files,
    baseline: Files,
    a: Seq<char>,
    b: Seq<char>,
    changes: Seq<ChangeModel>,
    merged: Files,
) -> Outcome<(Seq<ChangeModel>, Files)>
    decreases paths.len() - i,
{
    if i >= paths.len() {
        Ok((changes, merged))
    } else {
        let path = paths[i].0;
        let l = table::lookup(local, path);
        let r = table::lookup(remote, path);
        let base = table::lookup(baseline, path);
        if !path::pin_path(path) {
            Err(ErrorModel::Protocol("invalid pin path"@))
        } else if disputed(l, r, base) {
            Err(conflict_error(path, a, b))
        } else {
            let pick = chosen(l, r, base);
            let next = match pick {
                Some(print) => table::stored(merged, path, print),
                None => merged,
            };
            let more = if l == r {
                changes
            } else if l == base {
                changes.push(ChangeModel { path, expected: l, new: r, to_remote: false })
            } else {
                changes.push(ChangeModel { path, expected: r, new: l, to_remote: true })
            };
            planned(paths, i + 1, local, remote, baseline, a, b, more, next)
        }
    }
}

/// The changes that make both sides equal, and what both have then.
pub open spec fn plan_outcome(
    local: Files,
    remote: Files,
    baseline: Files,
    a: Seq<char>,
    b: Seq<char>,
) -> Outcome<(Seq<ChangeModel>, Files)> {
    planned(
        all_paths(local, remote, baseline),
        0,
        local,
        remote,
        baseline,
        a,
        b,
        Seq::empty(),
        Seq::empty(),
    )
}

pub(crate) fn add_paths(found: &mut Table<()>, rows: &Table<Fingerprint>)
    ensures
        final(found).deep_view() == with_paths(old(found).deep_view(), rows.deep_view(), 0),
{
    let ghost start = found.deep_view();
    let ghost view = rows.deep_view();
    let mut i: usize = 0;
    while i < rows.len()
        invariant
            i <= view.len(),
            view == rows.deep_view(),
            with_paths(start, view, 0) == with_paths(found.deep_view(), view, i as int),
        decreases view.len() - i,
    {
        found.put(rows.key_at(i).dup(), ());
        i += 1;
    }
}

pub(crate) fn print_at(rows: &Table<Fingerprint>, path: &str) -> (print: Option<Fingerprint>)
    ensures
        print.deep_view() == table::lookup(rows.deep_view(), path@),
{
    match rows.get(path) {
        Some(print) => Some(print.dup()),
        None => None,
    }
}

/// Three-way comparison: whoever changed a path since the last synchronization
/// is followed; a path that both changed stops everything.
pub fn plan(
    local: &Table<Fingerprint>,
    remote: &Table<Fingerprint>,
    baseline: &Table<Fingerprint>,
    a: &str,
    b: &str,
) -> (result: Result<(Vec<Change>, Table<Fingerprint>)>)
    ensures
        error::outcome(result) == plan_outcome(
            local.deep_view(),
            remote.deep_view(),
            baseline.deep_view(),
            a@,
            b@,
        ),
{
    let ghost lv = local.deep_view();
    let ghost rv = remote.deep_view();
    let ghost bv = baseline.deep_view();
    let mut paths: Table<()> = Table::new();
    add_paths(&mut paths, local);
    add_paths(&mut paths, remote);
    add_paths(&mut paths, baseline);
    let ghost all = paths.deep_view();
    assert(all == all_paths(lv, rv, bv));
    let mut changes: Vec<Change> = Vec::new();
    let mut merged: Table<Fingerprint> = Table::new();
    let mut i: usize = 0;
    assert(changes.deep_view() =~= Seq::<ChangeModel>::empty());
    while i < paths.len()
        invariant
            i <= all.len(),
            all == paths.deep_view(),
            all == all_paths(lv, rv, bv),
            lv == local.deep_view(),
            rv == remote.deep_view(),
            bv == baseline.deep_view(),
            plan_outcome(lv, rv, bv, a@, b@) == planned(
                all,
                i as int,
                lv,
                rv,
                bv,
                a@,
                b@,
                changes.deep_view(),
                merged.deep_view(),
            ),
        decreases all.len() - i,
    {
        let ghost before = changes.deep_view();
        let path = paths.key_at(i);
        if let Err(e) = valid_path(path) {
            return Err(e);
        }
        let l = print_at(local, path);
        let r = print_at(remote, path);
        let base = print_at(baseline, path);
        let pick: Option<Fingerprint> = if l.same(&r) {
            l
        } else if l.same(&base) {
            let change = Change {
                path: path.dup(),
                expected: l,
                new: r.dup(),
                to_remote: false,
            };
            let ghost item = change@;
            changes.push(change);
            assert(changes.deep_view() =~= before.push(item));
            r
        } else if r.same(&base) {
            let change = Change { path: path.dup(), expected: r, new: l.dup(), to_remote: true };
            let ghost item = change@;
            changes.push(change);
            assert(changes.deep_view() =~= before.push(item));
            l
        } else {
            return Err(conflict(path, a, b));
        };
        if let Some(print) = pick {
            merged.put(path.dup(), print);
        }
        i += 1;
    }
    Ok((changes, merged))
}

/// One side's files after the changes that go to it.
pub open spec fn applied(files: Files, changes: Seq<ChangeModel>, to_remote: bool) -> Files
    decreases changes.len(),
{
    if changes.len() == 0 {
        files
    } else {
        let earlier = applied(files, changes.drop_last(), to_remote);
        let c = changes.last();
        if c.to_remote != to_remote {
            earlier
        } else {
            match c.new {
                Some(print) => table::stored(earlier, c.path, print),
                None => table::without(earlier, c.path),
            }
        }
    }
}

/// A path is among the first `n`.
pub open spec fn among(paths: Seq<(Seq<char>, ())>, n: int, path: Seq<char>) -> bool {
    exists|j: int| 0 <= j < n && (#[trigger] paths[j]).0 == path
}

/// One side's files while the plan for the first `n` paths is carried out.
pub open spec fn follows(
    paths: Seq<(Seq<char>, ())>,
    n: int,
    now: Files,
    files: Files,
    local: Files,
    remote: Files,
    baseline: Files,
) -> bool {
    table::ascending(now) && forall|path: Seq<char>| #[trigger]
        table::lookup(now, path) == if among(paths, n, path) {
            chosen(table::lookup(local, path), table::lookup(remote, path), table::lookup(baseline, path))
        } else {
            table::lookup(files, path)
        }
}

pub proof fn lemma_with_paths(found: Seq<(Seq<char>, ())>, rows: Files, i: int)
    requires
        table::ascending(found),
        table::ascending(rows),
        0 <= i <= rows.len(),
    ensures
        table::ascending(with_paths(found, rows, i)),
        forall|path: Seq<char>| #[trigger]
            table::holds(with_paths(found, rows, i), path) == (table::holds(found, path) || exists|j: int|
                i <= j < rows.len() && (#[trigger] rows[j]).0 == path),
    decreases rows.len() - i,
{
    if i < rows.len() {
        let next = table::stored(found, rows[i].0, ());
        table::lemma_stored_ascending(found, rows[i].0, ());
        lemma_with_paths(next, rows, i + 1);
        assert forall|path: Seq<char>| #[trigger]
            table::holds(with_paths(found, rows, i), path) == (table::holds(found, path) || exists|j: int|
                i <= j < rows.len() && (#[trigger] rows[j]).0 == path) by {
            table::lemma_stored_lookup(found, rows[i].0, (), path);
            assert(table::holds(next, path) == (table::holds(found, path) || path == rows[i].0)) by {
                assert(table::lookup(next, path) is Some == table::holds(next, path));
                assert(table::lookup(found, path) is Some == table::holds(found, path));
            }
            if exists|j: int| i <= j < rows.len() && (#[trigger] rows[j]).0 == path {
                let j = choose|j: int| i <= j < rows.len() && (#[trigger] rows[j]).0 == path;
                if j > i {
                    assert(rows[j].0 == path);
                }
            }
        }
    }
}

proof fn lemma_holds_some<T>(rows: Seq<(Seq<char>, T)>, path: Seq<char>)
    requires
        table::ascending(rows),
    ensures
        table::holds(rows, path) == exists|j: int| 0 <= j < rows.len() && (#[trigger] rows[j]).0 == path,
{
    table::lemma_rank_bounds(rows, path);
    if exists|j: int| 0 <= j < rows.len() && (#[trigger] rows[j]).0 == path {
        let j = choose|j: int| 0 <= j < rows.len() && (#[trigger] rows[j]).0 == path;
        table::lemma_holds_at(rows, path, j);
    }
}

/// The paths of a plan are those of the three tables, in order.
pub proof fn lemma_all_paths(local: Files, remote: Files, baseline: Files)
    requires
        table::ascending(local),
        table::ascending(remote),
        table::ascending(baseline),
    ensures
        table::ascending(all_paths(local, remote, baseline)),
        forall|path: Seq<char>| #[trigger]
            table::holds(all_paths(local, remote, baseline), path) == (table::holds(local, path) || table::holds(
                remote,
                path,
            ) || table::holds(baseline, path)),
{
    let none = Seq::<(Seq<char>, ())>::empty();
    let one = with_paths(none, local, 0);
    let two = with_paths(one, remote, 0);
    lemma_with_paths(none, local, 0);
    lemma_with_paths(one, remote, 0);
    lemma_with_paths(two, baseline, 0);
    assert forall|path: Seq<char>| #[trigger]
        table::holds(all_paths(local, remote, baseline), path) == (table::holds(local, path) || table::holds(
            remote,
            path,
        ) || table::holds(baseline, path)) by {
        lemma_holds_some(local, path);
        lemma_holds_some(remote, path);
        lemma_holds_some(baseline, path);
        assert(!table::holds(none, path)) by {
            table::lemma_rank_bounds(none, path);
        }
        assert(table::holds(one, path) == table::holds(local, path));
        assert(table::holds(two, path) == (table::holds(one, path) || table::holds(remote, path)));
    }
}

/// One more path carried out on one side.
proof fn lemma_follow_step(
    paths: Seq<(Seq<char>, ())>,
    i: int,
    now: Files,
    next: Files,
    files: Files,
    local: Files,
    remote: Files,
    baseline: Files,
)
    requires
        table::ascending(paths),
        0 <= i < paths.len(),
        follows(paths, i, now, files, local, remote, baseline),
        ({
            let path = paths[i].0;
            let pick = chosen(table::lookup(local, path), table::lookup(remote, path), table::lookup(baseline, path));
            ||| next == now && pick == table::lookup(now, path)
            ||| pick is Some && next == table::stored(now, path, pick->0)
            ||| pick is None && next == table::without(now, path)
        }),
    ensures
        follows(paths, i + 1, next, files, local, remote, baseline),
{
    let key = paths[i].0;
    let pick = chosen(table::lookup(local, key), table::lookup(remote, key), table::lookup(baseline, key));
    if pick is Some {
        table::lemma_stored_ascending(now, key, pick->0);
    }
    table::lemma_without_lookup(now, key, key);
    assert forall|path: Seq<char>| #[trigger]
        table::lookup(next, path) == if among(paths, i + 1, path) {
            chosen(table::lookup(local, path), table::lookup(remote, path), table::lookup(baseline, path))
        } else {
            table::lookup(files, path)
        } by {
        if pick is Some {
            table::lemma_stored_lookup(now, key, pick->0, path);
        }
        table::lemma_without_lookup(now, key, path);
        assert(table::lookup(now, path) == if among(paths, i, path) {
            chosen(table::lookup(local, path), table::lookup(remote, path), table::lookup(baseline, path))
        } else {
            table::lookup(files, path)
        });
        if path == key {
            assert(paths[i].0 == path);
            assert(among(paths, i + 1, path));
        } else {
            if among(paths, i, path) {
                let j = choose|j: int| 0 <= j < i && (#[trigger] paths[j]).0 == path;
                assert(paths[j].0 == path);
            }
            if among(paths, i + 1, path) {
                let j = choose|j: int| 0 <= j < i + 1 && (#[trigger] paths[j]).0 == path;
                assert(j != i);
                assert(paths[j].0 == path);
            }
            assert(among(paths, i, path) == among(paths, i + 1, path));
        }
    }
}

proof fn lemma_applied_push(files: Files, changes: Seq<ChangeModel>, c: ChangeModel, side: bool)
    ensures
        applied(files, changes.push(c), side) == if c.to_remote != side {
            applied(files, changes, side)
        } else {
            match c.new {
                Some(print) => table::stored(applied(files, changes, side), c.path, print),
                None => table::without(applied(files, changes, side), c.path),
            }
        },
{
    assert(changes.push(c).drop_last() =~= changes);
    assert(changes.push(c).last() == c);
}

/// A plan fails only on a path that is not allowed or disputed.
pub open spec fn plannable(
    path: Seq<char>,
    local: Files,
    remote: Files,
    baseline: Files,
) -> bool {
    path::pin_path(path) && !disputed(
        table::lookup(local, path),
        table::lookup(remote, path),
        table::lookup(baseline, path),
    )
}

proof fn lemma_planned(
    paths: Seq<(Seq<char>, ())>,
    i: int,
    local: Files,
    remote: Files,
    baseline: Files,
    a: Seq<char>,
    b: Seq<char>,
    changes: Seq<ChangeModel>,
    merged: Files,
)
    requires
        table::ascending(paths),
        0 <= i <= paths.len(),
        follows(paths, i, merged, Seq::empty(), local, remote, baseline),
        follows(paths, i, applied(local, changes, false), local, local, remote, baseline),
        follows(paths, i, applied(remote, changes, true), remote, local, remote, baseline),
    ensures
        ({
            let result = planned(
                paths,
                i,
                local,
                remote,
                baseline,
                a,
                b,
                changes,
                merged,
            );
            &&& result is Ok <==> forall|j: int|
                i <= j < paths.len() ==> plannable(
                    (#[trigger] paths[j]).0,
                    local,
                    remote,
                    baseline,
                )
            &&& result matches Ok((cs, m)) ==> {
                let n = paths.len() as int;
                &&& follows(paths, n, m, Seq::empty(), local, remote, baseline)
                &&& follows(paths, n, applied(local, cs, false), local, local, remote, baseline)
                &&& follows(paths, n, applied(remote, cs, true), remote, local, remote, baseline)
            }
        }),
    decreases paths.len() - i,
{
    if i < paths.len() {
        let path = paths[i].0;
        let l = table::lookup(local, path);
        let r = table::lookup(remote, path);
        let base = table::lookup(baseline, path);
        if plannable(path, local, remote, baseline) {
            let pick = chosen(l, r, base);
            let next = match pick {
                Some(print) => table::stored(merged, path, print),
                None => merged,
            };
            let more = if l == r {
                changes
            } else if l == base {
                changes.push(ChangeModel { path, expected: l, new: r, to_remote: false })
            } else {
                changes.push(ChangeModel { path, expected: r, new: l, to_remote: true })
            };
            assert(!among(paths, i, path)) by {
                if among(paths, i, path) {
                    let j = choose|j: int| 0 <= j < i && (#[trigger] paths[j]).0 == path;
                    crate::text::lemma_text_lt_order(path, path, path);
                    assert(crate::text::text_lt(paths[j].0, paths[i].0));
                }
            }
            table::lemma_rank_bounds(Seq::<(Seq<char>, FingerprintModel)>::empty(), path);
            assert(table::lookup(merged, path) is None);
            let local_now = applied(local, changes, false);
            let remote_now = applied(remote, changes, true);
            assert(table::lookup(local_now, path) == l);
            assert(table::lookup(remote_now, path) == r);
            if l != r {
                lemma_applied_push(local, changes, more.last(), false);
                lemma_applied_push(remote, changes, more.last(), true);
                assert(changes.push(more.last()) =~= more);
            }
            lemma_follow_step(
                paths,
                i,
                merged,
                next,
                Seq::empty(),
                local,
                remote,
                baseline,
            );
            lemma_follow_step(
                paths,
                i,
                local_now,
                applied(local, more, false),
                local,
                local,
                remote,
                baseline,
            );
            lemma_follow_step(
                paths,
                i,
                remote_now,
                applied(remote, more, true),
                remote,
                local,
                remote,
                baseline,
            );
            lemma_planned(paths, i + 1, local, remote, baseline, a, b, more, next);
        } else {
            assert(paths[i].0 == path);
        }
    }
}

proof fn lemma_plan_start(paths: Seq<(Seq<char>, ())>, files: Files, local: Files, remote: Files, baseline: Files)
    requires
        table::ascending(files),
    ensures
        follows(paths, 0, files, files, local, remote, baseline),
{
}

/// A plan comes about exactly when every path is allowed and no path was changed
/// on both sides; carried out, it leaves both sides with the same files, and
/// every path with the version of the side that changed it.
pub proof fn law_plan_converges(
    local: Files,
    remote: Files,
    baseline: Files,
    a: Seq<char>,
    b: Seq<char>,
)
    requires
        table::ascending(local),
        table::ascending(remote),
        table::ascending(baseline),
    ensures
        ({
            let result = plan_outcome(local, remote, baseline, a, b);
            &&& result is Ok <==> forall|path: Seq<char>|
                (table::holds(local, path) || table::holds(remote, path) || table::holds(baseline, path))
                    ==> #[trigger] plannable(path, local, remote, baseline)
            &&& result matches Ok((changes, merged)) ==> {
                &&& applied(local, changes, false) == merged
                &&& applied(remote, changes, true) == merged
                &&& forall|path: Seq<char>| #[trigger]
                    table::lookup(merged, path) == chosen(
                        table::lookup(local, path),
                        table::lookup(remote, path),
                        table::lookup(baseline, path),
                    )
            }
        }),
{
    let paths = all_paths(local, remote, baseline);
    let n = paths.len() as int;
    let none = Seq::<(Seq<char>, FingerprintModel)>::empty();
    lemma_all_paths(local, remote, baseline);
    assert(applied(local, Seq::empty(), false) == local);
    assert(applied(remote, Seq::empty(), true) == remote);
    lemma_plan_start(paths, none, local, remote, baseline);
    lemma_plan_start(paths, local, local, remote, baseline);
    lemma_plan_start(paths, remote, local, remote, baseline);
    lemma_planned(paths, 0, local, remote, baseline, a, b, Seq::empty(), none);
    let result = plan_outcome(local, remote, baseline, a, b);
    assert forall|path: Seq<char>| (table::holds(local, path) || table::holds(remote, path) || table::holds(
        baseline,
        path,
    )) == among(paths, n, path) by {
        lemma_holds_some(paths, path);
        assert(table::holds(paths, path) == (table::holds(local, path) || table::holds(remote, path) || table::holds(
            baseline,
            path,
        )));
    }
    if result is Ok {
        assert forall|path: Seq<char>|
            (table::holds(local, path) || table::holds(remote, path) || table::holds(baseline, path)) implies #[trigger]
        plannable(path, local, remote, baseline) by {
            assert(among(paths, n, path));
            let j = choose|j: int| 0 <= j < n && (#[trigger] paths[j]).0 == path;
            assert(plannable(paths[j].0, local, remote, baseline));
        }
        let (changes, merged) = result->Ok_0;
        assert forall|path: Seq<char>| #[trigger]
            table::lookup(merged, path) == chosen(
                table::lookup(local, path),
                table::lookup(remote, path),
                table::lookup(baseline, path),
            ) && table::lookup(applied(local, changes, false), path) == table::lookup(merged, path) && table::lookup(
                applied(remote, changes, true),
                path,
            ) == table::lookup(merged, path) by {
            table::lemma_rank_bounds(none, path);
            assert(table::lookup(none, path) is None);
            table::lemma_rank_bounds(local, path);
            table::lemma_rank_bounds(remote, path);
            table::lemma_rank_bounds(baseline, path);
            if !among(paths, n, path) {
                assert(!table::holds(local, path) && !table::holds(remote, path) && !table::holds(baseline, path));
            }
            assert(table::lookup(applied(local, changes, false), path) == if among(paths, n, path) {
                chosen(table::lookup(local, path), table::lookup(remote, path), table::lookup(baseline, path))
            } else {
                table::lookup(local, path)
            });
            assert(table::lookup(applied(remote, changes, true), path) == if among(paths, n, path) {
                chosen(table::lookup(local, path), table::lookup(remote, path), table::lookup(baseline, path))
            } else {
                table::lookup(remote, path)
            });
        }
        table::lemma_same_lookups(applied(local, changes, false), merged);
        table::lemma_same_lookups(applied(remote, changes, true), merged);
    } else {
        let j = choose|j: int|
            0 <= j < n && !plannable((#[trigger] paths[j]).0, local, remote, baseline);
        assert(among(paths, n, paths[j].0));
        assert(!plannable(paths[j].0, local, remote, baseline));
    }
}

/// The version that both sides last agreed on.
pub open spec fn baseline_outcome(a: Files, b: Files, local: Files, remote: Files) -> Outcome<
    Files,
> {
    if a == b {
        Ok(a)
    } else if local == remote {
        Ok(local)
    } else {
        Err(conflict_error("(sync baseline)"@, "local baseline"@, "peer baseline"@))
    }
}

pub fn common_baseline(
    a: Table<Fingerprint>,
    b: &Table<Fingerprint>,
    local: &Table<Fingerprint>,
    remote: &Table<Fingerprint>,
) -> (result: Result<Table<Fingerprint>>)
    ensures
        error::outcome(result) == baseline_outcome(
            a.deep_view(),
            b.deep_view(),
            local.deep_view(),
            remote.deep_view(),
        ),
{
    if a.same(b) {
        Ok(a)
    } else if local.same(remote) {
        Ok(local.dup())
    } else {
        Err(conflict("(sync baseline)", "local baseline", "peer baseline"))
    }
}

/// Every path of a table is one that pin accepts.
pub open spec fn paths_ok(rows: Files) -> bool {
    forall|i: int| 0 <= i < rows.len() ==> path::pin_path((#[trigger] rows[i]).0)
}

pub open spec fn listing_outcome(list: ListingModel) -> Outcome<()> {
    if list.files.len() > MAX_PIN_ENTRIES || list.baseline.len() > MAX_PIN_ENTRIES {
        Err(ErrorModel::Protocol("peer pin listing exceeds 4096 entries"@))
    } else if !paths_ok(list.files) || !paths_ok(list.baseline) {
        Err(ErrorModel::Protocol("invalid pin path"@))
    } else {
        Ok(())
    }
}

fn check_paths(rows: &Table<Fingerprint>) -> (result: Result<()>)
    ensures
        error::outcome(result) == if paths_ok(rows.deep_view()) {
            Ok::<(), ErrorModel>(())
        } else {
            Err::<(), ErrorModel>(ErrorModel::Protocol("invalid pin path"@))
        },
{
    let ghost view = rows.deep_view();
    let mut i: usize = 0;
    while i < rows.len()
        invariant
            i <= view.len(),
            view == rows.deep_view(),
            forall|j: int| 0 <= j < i ==> path::pin_path((#[trigger] view[j]).0),
        decreases view.len() - i,
    {
        if let Err(e) = valid_path(rows.key_at(i)) {
            assert(!path::pin_path(view[i as int].0));
            return Err(e);
        }
        i += 1;
    }
    Ok(())
}

/// A peer's listing is bounded and names only acceptable paths.
pub fn validate_listing(list: &Listing) -> (result: Result<()>)
    ensures
        error::outcome(result) == listing_outcome(list@),
{
    if list.files.len() > MAX_PIN_ENTRIES || list.baseline.len() > MAX_PIN_ENTRIES {
        return Err(protocol("peer pin listing exceeds 4096 entries"));
    }
    if let Err(e) = check_paths(&list.files) {
        return Err(e);
    }
    check_paths(&list.baseline)
}

} // verus!
