//! What is shown of jobs: each once, by its best evidence, with every observation.

use vstd::multiset::Multiset;
use vstd::prelude::*;

use crate::history::merge;
use crate::history::publish;
use crate::history::views;
use crate::history::views::{RowModel, Seen, SeenModel};
use crate::history::wire;
use crate::history::{EntryModel, JobViewModel, Observation, ObservationModel, RecordModel};
use crate::laws::encoding;
use crate::laws::encoding::Grouped;
use crate::order;
use crate::store::StoreModel;
use crate::table;
use crate::types::JobModel;

verus! {

pub open spec fn group_of_view(view: JobViewModel) -> Seq<char> {
    views::group_of(view.job, view.retry_of)
}

pub open spec fn group_of_job(s: StoreModel, job: JobModel) -> Seq<char> {
    views::group_of(job, table::lookup(s.retry_links, job.id))
}

pub open spec fn group_of_entry(s: StoreModel, entry: EntryModel) -> Seq<char> {
    views::group_of(views::entry_job(s, entry), entry.record.certificate.invocation.retry_of)
}

/// An entry that is asked for and says something.
pub open spec fn shows(id: Option<Seq<char>>, entry: EntryModel) -> bool {
    views::wanted(id, entry.record.certificate.invocation.id) && entry.record.selected() is Some
}

/// Every fact of the first `n` entries that belong to a group.
pub open spec fn gathered(s: StoreModel, id: Option<Seq<char>>, group: Seq<char>, n: int) -> Multiset<
    ObservationModel,
>
    decreases n,
{
    if n <= 0 {
        Multiset::empty()
    } else {
        let entry = s.history.entries[n - 1].1;
        let before = gathered(s, id, group, n - 1);
        if shows(id, entry) && group_of_entry(s, entry) == group {
            before.add(views::observations_of(entry.record).to_multiset())
        } else {
            before
        }
    }
}

/// Rows stand under their own group.
pub open spec fn grouped(rows: Seq<(Seq<char>, RowModel)>) -> bool {
    &&& table::ascending(rows)
    &&& forall|g: Seq<char>|
        (#[trigger] table::lookup(rows, g)) is Some ==> group_of_view(table::lookup(rows, g)->0.view)
            == g
}

/// A row, where there is one, holds exactly these observations.
pub open spec fn observes(
    rows: Seq<(Seq<char>, RowModel)>,
    g: Seq<char>,
    all: Multiset<ObservationModel>,
) -> bool {
    match table::lookup(rows, g) {
        Some(row) => row.view.observations.to_multiset() == all,
        None => all == Multiset::<ObservationModel>::empty(),
    }
}

proof fn lemma_job_rows(s: StoreModel, id: Option<Seq<char>>, n: int)
    requires
        0 <= n <= s.jobs.len(),
    ensures
        grouped(views::job_rows(s, id, n)),
        forall|g: Seq<char>|
            #[trigger] observes(views::job_rows(s, id, n), g, Multiset::<ObservationModel>::empty()),
        forall|j: int|
            0 <= j < n && views::wanted(id, (#[trigger] s.jobs[j]).id) ==> table::lookup(
                views::job_rows(s, id, n),
                group_of_job(s, s.jobs[j]),
            ) is Some,
    decreases n,
{
    let rows = views::job_rows(s, id, n);
    if n > 0 {
        lemma_job_rows(s, id, n - 1);
        let before = views::job_rows(s, id, n - 1);
        let job = s.jobs[n - 1];
        let group = group_of_job(s, job);
        let row = views::local_row(s, job);
        if views::wanted(id, job.id) {
            table::lemma_stored_ascending(before, group, row);
            assert forall|g: Seq<char>| (#[trigger] table::lookup(rows, g)) is Some implies group_of_view(
                table::lookup(rows, g)->0.view,
            ) == g by {
                table::lemma_stored_lookup(before, group, row, g);
                assert(table::lookup(before, g) is Some ==> group_of_view(
                    table::lookup(before, g)->0.view,
                ) == g);
            }
            assert forall|g: Seq<char>| #[trigger] observes(
                rows,
                g,
                Multiset::<ObservationModel>::empty(),
            ) by {
                table::lemma_stored_lookup(before, group, row, g);
                assert(observes(before, g, Multiset::<ObservationModel>::empty()));
                assert(row.view.observations.to_multiset() =~= Multiset::<ObservationModel>::empty())
                    by {
                    vstd::seq_lib::to_multiset_len(row.view.observations);
                }
            }
            assert forall|j: int| 0 <= j < n && views::wanted(id, (#[trigger] s.jobs[j]).id) implies table::lookup(
                rows,
                group_of_job(s, s.jobs[j]),
            ) is Some by {
                table::lemma_stored_lookup(before, group, row, group_of_job(s, s.jobs[j]));
            }
        }
    } else {
        assert forall|g: Seq<char>| (#[trigger] table::lookup(rows, g)) is None by {
            table::lemma_rank_bounds(rows, g);
        }
        assert forall|g: Seq<char>| #[trigger] observes(
            rows,
            g,
            Multiset::<ObservationModel>::empty(),
        ) by {
            assert(table::lookup(rows, g) is None);
        }
    }
}

proof fn lemma_joined(old_row: Option<RowModel>, row: RowModel, g: Seq<char>)
    requires
        group_of_view(row.view) == g,
        old_row matches Some(o) ==> group_of_view(o.view) == g,
    ensures
        group_of_view(views::joined(old_row, row).view) == g,
        views::joined(old_row, row).view.observations.to_multiset() == match old_row {
            Some(o) => o.view.observations.to_multiset().add(row.view.observations.to_multiset()),
            None => row.view.observations.to_multiset(),
        },
{
    if let Some(o) = old_row {
        vstd::seq_lib::lemma_multiset_commutative(o.view.observations, row.view.observations);
        vstd::seq_lib::lemma_multiset_commutative(row.view.observations, o.view.observations);
        assert(o.view.observations.to_multiset().add(row.view.observations.to_multiset())
            =~= row.view.observations.to_multiset().add(o.view.observations.to_multiset()));
    }
}

proof fn lemma_entry_grouped(s: StoreModel, id: Option<Seq<char>>, n: int)
    requires
        0 <= n <= s.history.entries.len(),
    ensures
        grouped(views::entry_rows(s, id, n)),
    decreases n,
{
    let rows = views::entry_rows(s, id, n);
    if n > 0 {
        lemma_entry_grouped(s, id, n - 1);
        let before = views::entry_rows(s, id, n - 1);
        let entry = s.history.entries[n - 1].1;
        if shows(id, entry) {
            let group = group_of_entry(s, entry);
            let fresh = views::entry_row(s, entry);
            let row = views::joined(table::lookup(before, group), fresh);
            lemma_joined(table::lookup(before, group), fresh, group);
            table::lemma_stored_ascending(before, group, row);
            assert forall|g: Seq<char>| (#[trigger] table::lookup(rows, g)) is Some implies group_of_view(
                table::lookup(rows, g)->0.view,
            ) == g by {
                table::lemma_stored_lookup(before, group, row, g);
                assert(table::lookup(before, g) is Some ==> group_of_view(
                    table::lookup(before, g)->0.view,
                ) == g);
            }
        }
    } else {
        lemma_job_rows(s, id, s.jobs.len() as int);
    }
}

proof fn lemma_entry_observes(s: StoreModel, id: Option<Seq<char>>, n: int, g: Seq<char>)
    requires
        0 <= n <= s.history.entries.len(),
    ensures
        observes(views::entry_rows(s, id, n), g, gathered(s, id, g, n)),
    decreases n,
{
    if n > 0 {
        lemma_entry_observes(s, id, n - 1, g);
        let before = views::entry_rows(s, id, n - 1);
        let entry = s.history.entries[n - 1].1;
        if shows(id, entry) {
            let group = group_of_entry(s, entry);
            let fresh = views::entry_row(s, entry);
            let row = views::joined(table::lookup(before, group), fresh);
            lemma_entry_grouped(s, id, n - 1);
            lemma_joined(table::lookup(before, group), fresh, group);
            table::lemma_stored_lookup(before, group, row, g);
            if g == group && table::lookup(before, group) is None {
                assert(gathered(s, id, g, n) =~= fresh.view.observations.to_multiset());
            }
        }
    } else {
        lemma_job_rows(s, id, s.jobs.len() as int);
        assert(observes(
            views::job_rows(s, id, s.jobs.len() as int),
            g,
            Multiset::<ObservationModel>::empty(),
        ));
    }
}

proof fn lemma_entry_keeps(s: StoreModel, id: Option<Seq<char>>, m: int, n: int, g: Seq<char>)
    requires
        0 <= m <= n <= s.history.entries.len(),
        table::lookup(views::entry_rows(s, id, m), g) is Some,
    ensures
        table::lookup(views::entry_rows(s, id, n), g) is Some,
    decreases n - m,
{
    if m < n {
        lemma_entry_keeps(s, id, m, n - 1, g);
        let before = views::entry_rows(s, id, n - 1);
        let entry = s.history.entries[n - 1].1;
        if shows(id, entry) {
            let group = group_of_entry(s, entry);
            let row = views::joined(table::lookup(before, group), views::entry_row(s, entry));
            lemma_entry_grouped(s, id, n - 1);
            table::lemma_stored_lookup(before, group, row, g);
        }
    }
}

proof fn lemma_entry_present(s: StoreModel, id: Option<Seq<char>>, k: int)
    requires
        0 <= k < s.history.entries.len(),
        shows(id, s.history.entries[k].1),
    ensures
        table::lookup(
            views::entry_rows(s, id, s.history.entries.len() as int),
            group_of_entry(s, s.history.entries[k].1),
        ) is Some,
{
    let before = views::entry_rows(s, id, k);
    let entry = s.history.entries[k].1;
    let group = group_of_entry(s, entry);
    let row = views::joined(table::lookup(before, group), views::entry_row(s, entry));
    lemma_entry_grouped(s, id, k);
    table::lemma_stored_lookup(before, group, row, group);
    lemma_entry_keeps(s, id, k + 1, s.history.entries.len() as int, group);
}

proof fn lemma_job_present(s: StoreModel, id: Option<Seq<char>>, j: int)
    requires
        0 <= j < s.jobs.len(),
        views::wanted(id, s.jobs[j].id),
    ensures
        table::lookup(
            views::entry_rows(s, id, s.history.entries.len() as int),
            group_of_job(s, s.jobs[j]),
        ) is Some,
{
    lemma_job_rows(s, id, s.jobs.len() as int);
    assert(s.jobs[j] == s.jobs[j]);
    lemma_entry_keeps(s, id, 0, s.history.entries.len() as int, group_of_job(s, s.jobs[j]));
}

/// Two tables with the same groups, each observed alike.
pub open spec fn alike(
    a: Seq<(Seq<char>, RowModel)>,
    b: Seq<(Seq<char>, RowModel)>,
    g: Seq<char>,
) -> bool {
    match (table::lookup(a, g), table::lookup(b, g)) {
        (Some(x), Some(y)) => x.view.observations == y.view.observations,
        (None, None) => true,
        _ => false,
    }
}

proof fn lemma_warned_rows(s: StoreModel, id: Option<Seq<char>>, n: int)
    requires
        0 <= n <= s.jobs.len(),
    ensures
        grouped(views::warned_rows(s, id, n)),
        forall|g: Seq<char>| #[trigger]
            alike(
                views::entry_rows(s, id, s.history.entries.len() as int),
                views::warned_rows(s, id, n),
                g,
            ),
    decreases n,
{
    let base = views::entry_rows(s, id, s.history.entries.len() as int);
    let rows = views::warned_rows(s, id, n);
    lemma_entry_grouped(s, id, s.history.entries.len() as int);
    if n > 0 {
        lemma_warned_rows(s, id, n - 1);
        let before = views::warned_rows(s, id, n - 1);
        let job = s.jobs[n - 1];
        let group = group_of_job(s, job);
        if rows != before {
            let o = table::lookup(before, group)->0;
            let row = RowModel {
                view: JobViewModel {
                    job: JobModel { status: job.status, ..o.view.job },
                    local_warning: Some(views::unsaved_warning()),
                    ..o.view
                },
                ..o
            };
            assert(rows == table::stored(before, group, row));
            assert(group_of_view(row.view) == group_of_view(o.view));
            table::lemma_stored_ascending(before, group, row);
            assert forall|g: Seq<char>| (#[trigger] table::lookup(rows, g)) is Some implies group_of_view(
                table::lookup(rows, g)->0.view,
            ) == g by {
                table::lemma_stored_lookup(before, group, row, g);
                assert(table::lookup(before, g) is Some ==> group_of_view(
                    table::lookup(before, g)->0.view,
                ) == g);
            }
            assert forall|g: Seq<char>| #[trigger] alike(base, rows, g) by {
                table::lemma_stored_lookup(before, group, row, g);
                assert(alike(base, before, g));
            }
        }
    }
}

/// The row at a place of a table.
proof fn lemma_row_at(rows: Seq<(Seq<char>, RowModel)>, i: int)
    requires
        grouped(rows),
        0 <= i < rows.len(),
    ensures
        table::lookup(rows, rows[i].0) == Some(rows[i].1),
        group_of_view(rows[i].1.view) == rows[i].0,
{
    table::lemma_holds_at(rows, rows[i].0, i);
    assert(table::lookup(rows, rows[i].0) is Some);
}

/// What is shown, before it is put in order.
pub open spec fn unordered(s: StoreModel, id: Option<Seq<char>>) -> Seq<SeenModel> {
    views::seen_rows(s, views::warned_rows(s, id, s.jobs.len() as int))
}

proof fn lemma_unordered_apart(s: StoreModel, id: Option<Seq<char>>)
    ensures
        forall|i: int, j: int|
            0 <= i < unordered(s, id).len() && 0 <= j < unordered(s, id).len() && i != j
                ==> group_of_view((#[trigger] unordered(s, id)[i]).view) != group_of_view(
                (#[trigger] unordered(s, id)[j]).view,
            ),
        unordered(s, id).no_duplicates(),
{
    let rows = views::warned_rows(s, id, s.jobs.len() as int);
    let seen = unordered(s, id);
    lemma_warned_rows(s, id, s.jobs.len() as int);
    assert forall|i: int, j: int|
        0 <= i < seen.len() && 0 <= j < seen.len() && i != j implies group_of_view(
        (#[trigger] seen[i]).view,
    ) != group_of_view((#[trigger] seen[j]).view) by {
        lemma_row_at(rows, i);
        lemma_row_at(rows, j);
        let a = rows[i].0;
        let b = rows[j].0;
        crate::text::lemma_text_lt_order(a, a, a);
        if i < j {
            assert(crate::text::text_lt(rows[i].0, rows[j].0));
        } else {
            assert(crate::text::text_lt(rows[j].0, rows[i].0));
        }
    }
    assert forall|i: int, j: int| 0 <= i < seen.len() && 0 <= j < seen.len() && i != j implies seen[i]
        != seen[j] by {
        assert(group_of_view(seen[i].view) != group_of_view(seen[j].view));
    }
}

/// Each place in what is shown is one in the table, and each in the table is shown.
proof fn lemma_ordered(s: StoreModel, id: Option<Seq<char>>)
    ensures
        ({
            let shown = order::sorted(unordered(s, id), order::rank_order::<Seen>());
            &&& shown.no_duplicates()
            &&& forall|e: SeenModel| #[trigger] shown.contains(e) <==> unordered(s, id).contains(e)
        }),
{
    let seen = unordered(s, id);
    let shown = order::sorted(seen, order::rank_order::<Seen>());
    order::lemma_sorted_same(seen, order::rank_order::<Seen>());
    lemma_unordered_apart(s, id);
    seen.lemma_multiset_has_no_duplicates();
    shown.lemma_multiset_has_no_duplicates_conv();
    assert forall|e: SeenModel| #[trigger] shown.contains(e) <==> seen.contains(e) by {
        vstd::seq_lib::to_multiset_contains(shown, e);
        vstd::seq_lib::to_multiset_contains(seen, e);
    }
}

/// No two rows are of the same job: none have the same ID, machines, arguments and
/// retry link.
pub proof fn law_each_job_is_shown_once(s: StoreModel, id: Option<Seq<char>>, i: int, j: int)
    requires
        0 <= i < views::projection(s, id).len(),
        0 <= j < views::projection(s, id).len(),
        i != j,
    ensures
        ({
            let a = views::projection(s, id)[i];
            let b = views::projection(s, id)[j];
            !(a.job.id == b.job.id && a.job.from == b.job.from && a.job.body == b.job.body
                && a.job.argv == b.job.argv && a.retry_of == b.retry_of)
        }),
{
    let seen = unordered(s, id);
    let shown = order::sorted(seen, order::rank_order::<Seen>());
    lemma_unordered_apart(s, id);
    lemma_ordered(s, id);
    let a = shown[i];
    let b = shown[j];
    assert(shown.contains(a) && shown.contains(b));
    let p = choose|p: int| 0 <= p < seen.len() && seen[p] == a;
    let q = choose|q: int| 0 <= q < seen.len() && seen[q] == b;
    assert(a != b);
    assert(group_of_view(seen[p].view) != group_of_view(seen[q].view));
}

proof fn lemma_group_is_shown(s: StoreModel, id: Option<Seq<char>>, g: Seq<char>) -> (at: int)
    requires
        table::lookup(views::entry_rows(s, id, s.history.entries.len() as int), g) is Some,
    ensures
        0 <= at < views::projection(s, id).len(),
        group_of_view(views::projection(s, id)[at]) == g,
{
    let base = views::entry_rows(s, id, s.history.entries.len() as int);
    let rows = views::warned_rows(s, id, s.jobs.len() as int);
    let seen = unordered(s, id);
    let shown = order::sorted(seen, order::rank_order::<Seen>());
    lemma_warned_rows(s, id, s.jobs.len() as int);
    assert(alike(base, rows, g));
    table::lemma_rank_bounds(rows, g);
    let k = table::rank(rows, g);
    assert(rows[k].0 == g);
    lemma_row_at(rows, k);
    lemma_ordered(s, id);
    assert(seen.contains(seen[k]));
    assert(shown.contains(seen[k]));
    let at = choose|at: int| 0 <= at < shown.len() && shown[at] == seen[k];
    at
}

/// Every job that is asked for, and every entry that says something, is shown.
pub proof fn law_everything_is_shown(s: StoreModel, id: Option<Seq<char>>)
    ensures
        forall|j: int|
            0 <= j < s.jobs.len() && views::wanted(id, (#[trigger] s.jobs[j]).id) ==> in_some_row(
                s,
                id,
                group_of_job(s, s.jobs[j]),
            ),
        forall|k: int|
            0 <= k < s.history.entries.len() && shows(id, (#[trigger] s.history.entries[k]).1)
                ==> in_some_row(s, id, group_of_entry(s, s.history.entries[k].1)),
{
    assert forall|j: int| 0 <= j < s.jobs.len() && views::wanted(id, (#[trigger] s.jobs[j]).id) implies in_some_row(
        s,
        id,
        group_of_job(s, s.jobs[j]),
    ) by {
        lemma_job_present(s, id, j);
        let at = lemma_group_is_shown(s, id, group_of_job(s, s.jobs[j]));
        assert(group_of_view(views::projection(s, id)[at]) == group_of_job(s, s.jobs[j]));
    }
    assert forall|k: int|
        0 <= k < s.history.entries.len() && shows(
            id,
            (#[trigger] s.history.entries[k]).1,
        ) implies in_some_row(s, id, group_of_entry(s, s.history.entries[k].1)) by {
        lemma_entry_present(s, id, k);
        let at = lemma_group_is_shown(s, id, group_of_entry(s, s.history.entries[k].1));
        assert(group_of_view(views::projection(s, id)[at]) == group_of_entry(
            s,
            s.history.entries[k].1,
        ));
    }
}

/// Some row is of this group.
pub open spec fn in_some_row(s: StoreModel, id: Option<Seq<char>>, group: Seq<char>) -> bool {
    exists|at: int|
        0 <= at < views::projection(s, id).len() && group_of_view(
            #[trigger] views::projection(s, id)[at],
        ) == group
}

/// A row's observations are all the facts of the entries in its group, none lost
/// and none added, whichever entry the row itself is from.
pub proof fn law_no_observation_is_lost(s: StoreModel, id: Option<Seq<char>>, i: int)
    requires
        0 <= i < views::projection(s, id).len(),
    ensures
        views::projection(s, id)[i].observations.to_multiset() == gathered(
            s,
            id,
            group_of_view(views::projection(s, id)[i]),
            s.history.entries.len() as int,
        ),
{
    let n = s.history.entries.len() as int;
    let base = views::entry_rows(s, id, n);
    let rows = views::warned_rows(s, id, s.jobs.len() as int);
    let seen = unordered(s, id);
    let shown = order::sorted(seen, order::rank_order::<Seen>());
    lemma_warned_rows(s, id, s.jobs.len() as int);
    lemma_ordered(s, id);
    assert(shown.contains(shown[i]));
    let k = choose|k: int| 0 <= k < seen.len() && seen[k] == shown[i];
    lemma_row_at(rows, k);
    let g = rows[k].0;
    order::lemma_sorted_same(
        rows[k].1.view.observations,
        order::rank_order::<Observation>(),
    );
    assert(alike(base, rows, g));
    lemma_entry_observes(s, id, n, g);
    assert(group_of_view(shown[i].view) == group_of_view(rows[k].1.view));
}

/// Records are of one row exactly where they are of one job.
pub proof fn law_groups_are_jobs(a: JobModel, x: Option<Seq<char>>, b: JobModel, y: Option<Seq<char>>)
    ensures
        views::group_of(a, x) == views::group_of(b, y) <==> a.id == b.id && a.from == b.from && a.body
            == b.body && a.argv == b.argv && x == y,
{
    let p: Grouped = (a.id, a.from, a.body, a.argv, x);
    let q: Grouped = (b.id, b.from, b.body, b.argv, y);
    encoding::law_groups_are_told_apart(p, q);
}

/// The runner's signed result weighs most, then what the runner observed, then what
/// the origin says of the delivery, then what the origin observed; a record that is
/// not signed at all weighs least.
pub proof fn law_evidence_weighs(
    runner: RecordModel,
    seen_there: RecordModel,
    origin: RecordModel,
    seen_here: RecordModel,
    s: StoreModel,
    local: JobModel,
)
    requires
        runner.certificate.invocation.legacy_observer is None,
        runner.runner is Some,
        seen_there.certificate.invocation.legacy_observer == Some(
            seen_there.certificate.invocation.body,
        ),
        origin.certificate.invocation.legacy_observer is None,
        origin.runner is None,
        seen_here.certificate.invocation.legacy_observer is Some,
        seen_here.certificate.invocation.legacy_observer != Some(
            seen_here.certificate.invocation.body,
        ),
    ensures
        views::evidence(runner).0 > views::evidence(seen_there).0,
        views::evidence(seen_there).0 > views::evidence(origin).0,
        views::evidence(origin).0 > views::evidence(seen_here).0,
        views::evidence(seen_here).0 > views::local_row(s, local).priority,
        views::evidence(runner).1 == "verified runner result"@,
{
}

/// Of two rows of one job the one of heavier evidence is shown, the earlier one where
/// they weigh the same, with the observations of both.
pub proof fn law_heavier_evidence_is_shown(old: RowModel, row: RowModel)
    ensures
        ({
            let both = views::joined(Some(old), row);
            let kept = if row.priority > old.priority {
                row
            } else {
                old
            };
            &&& both.priority == kept.priority
            &&& both.view.job == kept.view.job
            &&& both.view.provenance == kept.view.provenance
            &&& both.view.invocation == kept.view.invocation
            &&& both.view.stdout == kept.view.stdout && both.view.stderr == kept.view.stderr
            &&& both.view.output_available == kept.view.output_available
            &&& both.view.observations.len() == old.view.observations.len()
                + row.view.observations.len()
            &&& views::joined(None, row) == row
        }),
{
}

/// The same view but for its observations.
pub open spec fn same_word(a: JobViewModel, b: JobViewModel) -> bool {
    a == JobViewModel { observations: a.observations, ..b }
}

proof fn lemma_job_rows_weigh_nothing(s: StoreModel, id: Option<Seq<char>>, n: int, g: Seq<char>)
    requires
        0 <= n <= s.jobs.len(),
    ensures
        table::lookup(views::job_rows(s, id, n), g) matches Some(row) ==> row.priority == 0,
    decreases n,
{
    if n > 0 {
        lemma_job_rows_weigh_nothing(s, id, n - 1, g);
        let job = s.jobs[n - 1];
        if views::wanted(id, job.id) {
            lemma_job_rows(s, id, n - 1);
            table::lemma_stored_lookup(
                views::job_rows(s, id, n - 1),
                group_of_job(s, job),
                views::local_row(s, job),
                g,
            );
        }
    } else {
        table::lemma_rank_bounds(views::job_rows(s, id, n), g);
    }
}

/// A record of the same job with a signed result of the runner.
pub open spec fn rivals(a: EntryModel, b: EntryModel) -> bool {
    let i = a.record.certificate.invocation;
    let j = b.record.certificate.invocation;
    &&& b.record.runner is Some && j.legacy_observer is None
    &&& i.id == j.id && i.from == j.from && i.body == j.body && i.argv == j.argv && i.retry_of
        == j.retry_of
}

proof fn lemma_runner_row(s: StoreModel, id: Option<Seq<char>>, k: int, n: int)
    requires
        0 <= k < s.history.entries.len(),
        0 <= n <= s.history.entries.len(),
        shows(id, s.history.entries[k].1),
        s.history.entries[k].1.record.runner is Some,
        s.history.entries[k].1.record.certificate.invocation.legacy_observer is None,
        forall|m: int|
            0 <= m < s.history.entries.len() && m != k ==> !rivals(
                s.history.entries[k].1,
                (#[trigger] s.history.entries[m]).1,
            ),
    ensures
        ({
            let entry = s.history.entries[k].1;
            let row = table::lookup(views::entry_rows(s, id, n), group_of_entry(s, entry));
            &&& n <= k ==> (row matches Some(r) ==> r.priority < 4)
            &&& n > k ==> row is Some && row->0.priority == 4 && same_word(
                row->0.view,
                views::entry_row(s, entry).view,
            )
        }),
    decreases n,
{
    let entry = s.history.entries[k].1;
    let g = group_of_entry(s, entry);
    if n == 0 {
        lemma_job_rows_weigh_nothing(s, id, s.jobs.len() as int, g);
    } else {
        lemma_runner_row(s, id, k, n - 1);
        let before = views::entry_rows(s, id, n - 1);
        let next = s.history.entries[n - 1].1;
        if shows(id, next) {
            let group = group_of_entry(s, next);
            let fresh = views::entry_row(s, next);
            let row = views::joined(table::lookup(before, group), fresh);
            lemma_entry_grouped(s, id, n - 1);
            table::lemma_stored_lookup(before, group, row, g);
            if n - 1 != k && group == g {
                law_groups_are_jobs(
                    views::entry_job(s, next),
                    next.record.certificate.invocation.retry_of,
                    views::entry_job(s, entry),
                    entry.record.certificate.invocation.retry_of,
                );
                assert(!rivals(s.history.entries[k].1, s.history.entries[n - 1].1));
                assert(fresh.priority < 4);
            }
        }
    }
}

proof fn lemma_row_unwarned(s: StoreModel, id: Option<Seq<char>>, n: int, g: Seq<char>)
    requires
        0 <= n <= s.jobs.len(),
        forall|j: int|
            0 <= j < s.jobs.len() && group_of_job(s, #[trigger] s.jobs[j]) == g ==> !(s.jobs[j].body
                == s.body_name && s.jobs[j].status is Uncertain),
    ensures
        table::lookup(views::warned_rows(s, id, n), g) == table::lookup(
            views::entry_rows(s, id, s.history.entries.len() as int),
            g,
        ),
    decreases n,
{
    if n > 0 {
        lemma_row_unwarned(s, id, n - 1, g);
        lemma_warned_rows(s, id, n - 1);
        let rows = views::warned_rows(s, id, n - 1);
        let job = s.jobs[n - 1];
        let group = group_of_job(s, job);
        if views::warned_rows(s, id, n) != rows {
            let old = table::lookup(rows, group)->0;
            table::lemma_stored_lookup(
                rows,
                group,
                RowModel {
                    view: JobViewModel {
                        job: JobModel { status: job.status, ..old.view.job },
                        local_warning: Some(views::unsaved_warning()),
                        ..old.view
                    },
                    ..old
                },
                g,
            );
        }
    }
}

/// A row of the rows is shown, with its observations in order.
proof fn lemma_row_is_shown(s: StoreModel, id: Option<Seq<char>>, g: Seq<char>) -> (at: int)
    requires
        table::lookup(views::warned_rows(s, id, s.jobs.len() as int), g) is Some,
    ensures
        0 <= at < views::projection(s, id).len(),
        same_word(
            views::projection(s, id)[at],
            table::lookup(views::warned_rows(s, id, s.jobs.len() as int), g)->0.view,
        ),
{
    let rows = views::warned_rows(s, id, s.jobs.len() as int);
    let seen = unordered(s, id);
    let shown = order::sorted(seen, order::rank_order::<Seen>());
    lemma_warned_rows(s, id, s.jobs.len() as int);
    table::lemma_rank_bounds(rows, g);
    let k = table::rank(rows, g);
    lemma_row_at(rows, k);
    lemma_ordered(s, id);
    assert(seen.contains(seen[k]));
    assert(shown.contains(seen[k]));
    let at = choose|at: int| 0 <= at < shown.len() && shown[at] == seen[k];
    at
}

/// Where the runner has signed a result, that is what is shown of the job: its status,
/// and the sizes and digests of both streams, whatever else is known of it.
pub proof fn law_runner_result_is_shown(s: StoreModel, id: Option<Seq<char>>, k: int)
    requires
        0 <= k < s.history.entries.len(),
        id is None || id == Some(s.history.entries[k].1.record.certificate.invocation.id),
        s.history.entries[k].1.record.runner is Some,
        s.history.entries[k].1.record.certificate.invocation.legacy_observer is None,
        forall|m: int|
            0 <= m < s.history.entries.len() && m != k ==> !rivals(
                s.history.entries[k].1,
                (#[trigger] s.history.entries[m]).1,
            ),
        forall|j: int|
            0 <= j < s.jobs.len() && (#[trigger] s.jobs[j]).id
                == s.history.entries[k].1.record.certificate.invocation.id ==> !(s.jobs[j].body
                == s.body_name && s.jobs[j].status is Uncertain),
    ensures
        exists|at: int|
            0 <= at < views::projection(s, id).len() && shows_runner(
                #[trigger] views::projection(s, id)[at],
                s.history.entries[k].1,
            ),
{
    let entry = s.history.entries[k].1;
    let g = group_of_entry(s, entry);
    let n = s.history.entries.len() as int;
    lemma_runner_row(s, id, k, n);
    assert forall|j: int|
        0 <= j < s.jobs.len() && group_of_job(s, #[trigger] s.jobs[j]) == g implies !(s.jobs[j].body
        == s.body_name && s.jobs[j].status is Uncertain) by {
        law_groups_are_jobs(
            s.jobs[j],
            table::lookup(s.retry_links, s.jobs[j].id),
            views::entry_job(s, entry),
            entry.record.certificate.invocation.retry_of,
        );
    }
    lemma_row_unwarned(s, id, s.jobs.len() as int, g);
    let at = lemma_row_is_shown(s, id, g);
    assert(shows_runner(views::projection(s, id)[at], entry));
}

/// A view of the job with the runner's own word.
pub open spec fn shows_runner(view: JobViewModel, entry: EntryModel) -> bool {
    let i = entry.record.certificate.invocation;
    let fact = entry.record.runner->0.fact;
    &&& view.job.id == i.id && view.job.from == i.from && view.job.body == i.body && view.job.argv
        == i.argv
    &&& view.retry_of == i.retry_of
    &&& view.job.status == fact.status
    &&& view.stdout == fact.stdout
    &&& view.stderr == fact.stderr
    &&& view.provenance == "verified runner result"@
}

proof fn lemma_local_row(s: StoreModel, id: Option<Seq<char>>, j: int, n: int)
    requires
        0 <= j < n <= s.jobs.len(),
        views::wanted(id, s.jobs[j].id),
        forall|m: int| 0 <= m < s.jobs.len() && m != j ==> (#[trigger] s.jobs[m]).id != s.jobs[j].id,
    ensures
        table::lookup(views::job_rows(s, id, n), group_of_job(s, s.jobs[j])) == Some(
            views::local_row(s, s.jobs[j]),
        ),
    decreases n,
{
    let g = group_of_job(s, s.jobs[j]);
    let last = s.jobs[n - 1];
    let rows = views::job_rows(s, id, n - 1);
    lemma_job_rows(s, id, n - 1);
    if n - 1 == j {
        table::lemma_stored_lookup(rows, g, views::local_row(s, last), g);
    } else {
        lemma_local_row(s, id, j, n - 1);
        law_groups_are_jobs(
            last,
            table::lookup(s.retry_links, last.id),
            s.jobs[j],
            table::lookup(s.retry_links, s.jobs[j].id),
        );
        table::lemma_stored_lookup(rows, group_of_job(s, last), views::local_row(s, last), g);
    }
}

proof fn lemma_entries_elsewhere(s: StoreModel, id: Option<Seq<char>>, j: int, n: int)
    requires
        0 <= j < s.jobs.len(),
        0 <= n <= s.history.entries.len(),
        forall|m: int|
            0 <= m < s.history.entries.len() ==> (#[trigger] s.history.entries[m])
                .1.record.certificate.invocation.id != s.jobs[j].id,
    ensures
        table::lookup(views::entry_rows(s, id, n), group_of_job(s, s.jobs[j])) == table::lookup(
            views::job_rows(s, id, s.jobs.len() as int),
            group_of_job(s, s.jobs[j]),
        ),
    decreases n,
{
    if n > 0 {
        lemma_entries_elsewhere(s, id, j, n - 1);
        let before = views::entry_rows(s, id, n - 1);
        let next = s.history.entries[n - 1].1;
        if shows(id, next) {
            let group = group_of_entry(s, next);
            let row = views::joined(table::lookup(before, group), views::entry_row(s, next));
            lemma_entry_grouped(s, id, n - 1);
            law_groups_are_jobs(
                views::entry_job(s, next),
                next.record.certificate.invocation.retry_of,
                s.jobs[j],
                table::lookup(s.retry_links, s.jobs[j].id),
            );
            table::lemma_stored_lookup(before, group, row, group_of_job(s, s.jobs[j]));
        }
    }
}

/// A job that no record speaks of is shown as it is here, with both streams of its
/// output and what it repeats.
pub proof fn law_local_job_is_shown(s: StoreModel, id: Option<Seq<char>>, j: int)
    requires
        0 <= j < s.jobs.len(),
        id is None || id == Some(s.jobs[j].id),
        forall|m: int| 0 <= m < s.jobs.len() && m != j ==> (#[trigger] s.jobs[m]).id != s.jobs[j].id,
        forall|m: int|
            0 <= m < s.history.entries.len() ==> (#[trigger] s.history.entries[m])
                .1.record.certificate.invocation.id != s.jobs[j].id,
        !(s.jobs[j].body == s.body_name && s.jobs[j].status is Uncertain),
    ensures
        exists|at: int|
            0 <= at < views::projection(s, id).len() && (#[trigger] views::projection(s, id)[at]).job
                == s.jobs[j] && views::projection(s, id)[at].retry_of == table::lookup(
                s.retry_links,
                s.jobs[j].id,
            ) && (views::projection(s, id)[at].output_available <==> !table::holds(
                s.output_pruned,
                s.jobs[j].id,
            )),
{
    let g = group_of_job(s, s.jobs[j]);
    lemma_local_row(s, id, j, s.jobs.len() as int);
    lemma_entries_elsewhere(s, id, j, s.history.entries.len() as int);
    assert forall|m: int|
        0 <= m < s.jobs.len() && group_of_job(s, #[trigger] s.jobs[m]) == g implies !(s.jobs[m].body
        == s.body_name && s.jobs[m].status is Uncertain) by {
        law_groups_are_jobs(
            s.jobs[m],
            table::lookup(s.retry_links, s.jobs[m].id),
            s.jobs[j],
            table::lookup(s.retry_links, s.jobs[j].id),
        );
    }
    lemma_row_unwarned(s, id, s.jobs.len() as int, g);
    let at = lemma_row_is_shown(s, id, g);
    assert(views::projection(s, id)[at].job == s.jobs[j]);
}

proof fn lemma_seen_order()
    ensures
        order::strict_weak(order::rank_order::<Seen>()),
{
    let before = order::rank_order::<Seen>();
    assert forall|a: SeenModel| !#[trigger] before(a, a) by {
        crate::text::lemma_text_lt_order(a.view.job.id, a.view.job.id, a.view.job.id);
    }
    assert forall|a: SeenModel, b: SeenModel, c: SeenModel|
        #![trigger before(b, a), before(c, b)]
        !before(b, a) && !before(c, b) implies !before(c, a) by {
        crate::text::lemma_text_lt_order(a.view.job.id, b.view.job.id, c.view.job.id);
        crate::text::lemma_text_lt_order(b.view.job.id, c.view.job.id, a.view.job.id);
        crate::text::lemma_text_lt_order(c.view.job.id, a.view.job.id, b.view.job.id);
        crate::text::lemma_text_lt_order(c.view.job.id, b.view.job.id, a.view.job.id);
        crate::text::lemma_text_lt_order(b.view.job.id, a.view.job.id, c.view.job.id);
    }
    assert forall|a: SeenModel, b: SeenModel| #[trigger] before(a, b) implies !before(b, a) by {
        crate::text::lemma_text_lt_order(a.view.job.id, b.view.job.id, a.view.job.id);
    }
}

/// Jobs are shown in the order of what this machine observed: an earlier change stands
/// before a later one.
pub proof fn law_shown_in_order(s: StoreModel, id: Option<Seq<char>>, i: int, j: int)
    requires
        0 <= i < j < views::projection(s, id).len(),
    ensures
        views::sequence_of(s, views::projection(s, id)[i]) <= views::sequence_of(
            s,
            views::projection(s, id)[j],
        ),
{
    let before = order::rank_order::<Seen>();
    let seen = unordered(s, id);
    let shown = order::sorted(seen, before);
    lemma_seen_order();
    order::lemma_sorted(seen, before);
    lemma_ordered(s, id);
    assert(!before(shown[j], shown[i]));
    assert(shown.contains(shown[i]) && shown.contains(shown[j]));
    let a = choose|a: int| 0 <= a < seen.len() && seen[a] == shown[i];
    let b = choose|b: int| 0 <= b < seen.len() && seen[b] == shown[j];
    let rows = views::warned_rows(s, id, s.jobs.len() as int);
    assert(seen[a] == views::seen_row(s, rows[a].1));
    assert(seen[b] == views::seen_row(s, rows[b].1));
}

/// A job's place is the number of its record's last change.
pub proof fn law_place_of_a_job(s: StoreModel, view: JobViewModel)
    ensures
        (view.invocation matches Some(key) && table::lookup(s.history.entries, key) is Some)
            ==> views::sequence_of(s, view) == table::lookup(
            s.history.entries,
            view.invocation->0,
        )->0.change,
{
}

/// Output is said to be there where it can be given, or where there was none to begin
/// with.
pub proof fn law_output_is_there(s: StoreModel, entry: EntryModel)
    ensures
        ({
            let i = entry.record.certificate.invocation;
            let fact = entry.record.selected()->0.fact;
            let local = match publish::last_at(s.jobs, i.id) {
                Some(at) => Some(s.jobs[at]),
                None => None,
            };
            let view = views::entry_row(s, entry).view;
            &&& fact.stdout.bytes == 0 && fact.stderr.bytes == 0 ==> view.output_available
            &&& fact.stdout.bytes > 0 || fact.stderr.bytes > 0 ==> (view.output_available
                <==> merge::selected_output(s, entry, local) is Some)
            &&& view.stdout == fact.stdout
            &&& view.stderr == fact.stderr
            &&& view.retry_of == i.retry_of
            &&& view.invocation == Some(wire::invocation_key(entry.record.certificate))
        }),
{
}

} // verus!
