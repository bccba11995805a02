//! The pages of the recovery store, followed to the end.

use vstd::prelude::*;

use crate::error::{ErrorModel, Outcome};
use crate::pin::listing;
use crate::pin::listing::{PageSightModel, MAX_RECOVERY_PAGE};
use crate::pin::path;
use crate::pin::record::{RecoveryContextModel, RecoveryEntryModel};
use crate::pin::recovery;
use crate::pin::recovery::RecoveryFileModel;
use crate::search;
use crate::table;
use crate::text;

verus! {

/// The row that a name gives: a receipt's, or that of data without one.
pub open spec fn row_for(
    files: Seq<RecoveryFileModel>,
    seen: Seq<PageSightModel>,
    id: Seq<char>,
) -> Option<RecoveryEntryModel> {
    if recovery::is_json(id) {
        match search::first(seen, listing::sight_of(id)) {
            Some(at) => Some(listing::receipt_row(seen[at])),
            None => None,
        }
    } else if listing::linked(files, id) {
        None
    } else {
        Some(listing::stray_row(id))
    }
}

proof fn lemma_rows_after(
    page: Seq<(Seq<char>, ())>,
    i: int,
    files: Seq<RecoveryFileModel>,
    seen: Seq<PageSightModel>,
    rows: Seq<RecoveryEntryModel>,
)
    requires
        0 <= i <= page.len(),
    ensures
        listing::rows_from(page, i, files, seen, rows) == rows + listing::rows_from(
            page,
            i,
            files,
            seen,
            Seq::empty(),
        ),
    decreases page.len() - i,
{
    let none = Seq::<RecoveryEntryModel>::empty();
    if i < page.len() {
        match row_for(files, seen, page[i].0) {
            Some(row) => {
                lemma_rows_after(page, i + 1, files, seen, rows.push(row));
                lemma_rows_after(page, i + 1, files, seen, none.push(row));
                assert(rows.push(row) + listing::rows_from(page, i + 1, files, seen, none) =~= rows + (
                none.push(row) + listing::rows_from(page, i + 1, files, seen, none)));
            },
            None => {
                lemma_rows_after(page, i + 1, files, seen, rows);
            },
        }
    } else {
        assert(rows =~= rows + none);
    }
}

proof fn lemma_rows_split(
    a: Seq<(Seq<char>, ())>,
    b: Seq<(Seq<char>, ())>,
    i: int,
    files: Seq<RecoveryFileModel>,
    seen: Seq<PageSightModel>,
    rows: Seq<RecoveryEntryModel>,
)
    requires
        0 <= i <= a.len(),
    ensures
        listing::rows_from(a + b, i, files, seen, rows) == listing::rows_from(a, i, files, seen, rows)
            + listing::rows_from(b, 0, files, seen, Seq::empty()),
    decreases a.len() - i,
{
    if i < a.len() {
        assert((a + b)[i] == a[i]);
        let more = match row_for(files, seen, a[i].0) {
            Some(row) => rows.push(row),
            None => rows,
        };
        lemma_rows_split(a, b, i + 1, files, seen, more);
    } else {
        lemma_rows_shift(a, b, 0, files, seen, rows);
        lemma_rows_after(b, 0, files, seen, rows);
    }
}

proof fn lemma_rows_shift(
    a: Seq<(Seq<char>, ())>,
    b: Seq<(Seq<char>, ())>,
    i: int,
    files: Seq<RecoveryFileModel>,
    seen: Seq<PageSightModel>,
    rows: Seq<RecoveryEntryModel>,
)
    requires
        0 <= i <= b.len(),
    ensures
        listing::rows_from(a + b, a.len() + i, files, seen, rows) == listing::rows_from(
            b,
            i,
            files,
            seen,
            rows,
        ),
    decreases b.len() - i,
{
    if i < b.len() {
        assert((a + b)[a.len() + i] == b[i]);
        let more = match row_for(files, seen, b[i].0) {
            Some(row) => rows.push(row),
            None => rows,
        };
        lemma_rows_shift(a, b, i + 1, files, seen, more);
    }
}

/// What the pages list, one after the other, from a cursor on.
pub open spec fn listed(
    context: RecoveryContextModel,
    cursor: Option<Seq<char>>,
    limit: usize,
    names: Seq<Seq<char>>,
    sizes: Seq<i64>,
    files: Seq<RecoveryFileModel>,
    seen: Seq<PageSightModel>,
) -> Outcome<Seq<RecoveryEntryModel>>
    decreases listing::remaining(names, cursor).len(),
{
    match listing::list_outcome(context, cursor, limit, names, sizes, files, seen) {
        Err(e) => Err(e),
        Ok(list) => match list.next_cursor {
            None => Ok(list.entries),
            Some(next) => if listing::remaining(names, Some(next)).len() >= listing::remaining(
                names,
                cursor,
            ).len() {
                Ok(list.entries)
            } else {
                match listed(context, Some(next), limit, names, sizes, files, seen) {
                    Err(e) => Err(e),
                    Ok(rest) => Ok(list.entries + rest),
                }
            },
        },
    }
}

proof fn lemma_listed(
    context: RecoveryContextModel,
    cursor: Option<Seq<char>>,
    limit: usize,
    names: Seq<Seq<char>>,
    sizes: Seq<i64>,
    files: Seq<RecoveryFileModel>,
    seen: Seq<PageSightModel>,
)
    requires
        0 < limit <= MAX_RECOVERY_PAGE,
        forall|i: int|
            0 <= i < names.len() ==> path::recovery_name_outcome(#[trigger] names[i]) is Ok,
        cursor is Some ==> path::recovery_name_outcome(cursor->0) is Ok,
    ensures
        listed(context, cursor, limit, names, sizes, files, seen) == Ok::<
            Seq<RecoveryEntryModel>,
            ErrorModel,
        >(listing::rows_from(listing::remaining(names, cursor), 0, files, seen, Seq::empty())),
    decreases listing::remaining(names, cursor).len(),
{
    let rest = listing::remaining(names, cursor);
    let page = listing::page_rows(names, cursor, limit as nat);
    listing::law_pages_cover(names, cursor, limit as nat);
    if let Some(next) = listing::page_cursor(names, cursor, limit as nat) {
        let after = listing::remaining(names, Some(next));
        assert(rest == page + after);
        listing::lemma_page_cursor(names, cursor, limit as nat);
        let at = choose|at: int| 0 <= at < names.len() && names[at] == next;
        assert(path::recovery_name_outcome(names[at]) is Ok);
        assert(page.len() == limit);
        lemma_listed(context, Some(next), limit, names, sizes, files, seen);
        lemma_rows_split(page, after, 0, files, seen, Seq::empty());
    }
}

proof fn lemma_rows_shown(
    page: Seq<(Seq<char>, ())>,
    n: int,
    files: Seq<RecoveryFileModel>,
    seen: Seq<PageSightModel>,
)
    requires
        table::ascending(page),
        0 <= n <= page.len(),
    ensures
        ({
            let rows = listing::rows_from(page.take(n), 0, files, seen, Seq::empty());
            &&& forall|i: int, j: int|
                0 <= i < j < rows.len() ==> text::text_lt(
                    (#[trigger] rows[i]).id,
                    (#[trigger] rows[j]).id,
                )
            &&& forall|i: int| 0 <= i < rows.len() ==> (#[trigger] shown_at(page, files, seen, n, rows[i]))
            &&& forall|k: int|
                0 <= k < n ==> (row_for(files, seen, (#[trigger] page[k]).0) matches Some(row)
                    ==> rows.contains(row))
        }),
    decreases n,
{
    let none = Seq::<RecoveryEntryModel>::empty();
    if n > 0 {
        let head = page.take(n - 1);
        let one = page.subrange(n - 1, n);
        assert(page.take(n) =~= head + one);
        lemma_rows_shown(page, n - 1, files, seen);
        lemma_rows_split(head, one, 0, files, seen, none);
        let before = listing::rows_from(head, 0, files, seen, none);
        let rows = listing::rows_from(page.take(n), 0, files, seen, none);
        let id = page[n - 1].0;
        assert(one[0].0 == id);
        search::lemma_first(seen, listing::sight_of(id));
        reveal_with_fuel(listing::rows_from, 2);
        match row_for(files, seen, id) {
            None => {
                assert(rows =~= before);
            },
            Some(row) => {
                assert(row.id == id);
                assert(rows =~= before.push(row));
            },
        }
        assert forall|i: int| 0 <= i < rows.len() implies #[trigger] shown_at(
            page,
            files,
            seen,
            n,
            rows[i],
        ) by {
            if i < before.len() {
                assert(shown_at(page, files, seen, n - 1, before[i]));
                let k = choose|k: int|
                    0 <= k < n - 1 && (#[trigger] page[k]).0 == before[i].id && row_for(
                        files,
                        seen,
                        page[k].0,
                    ) == Some(before[i]);
                assert(page[k].0 == rows[i].id);
            } else {
                assert(page[n - 1].0 == rows[i].id);
            }
        }
        assert forall|i: int, j: int| 0 <= i < j < rows.len() implies text::text_lt(
            (#[trigger] rows[i]).id,
            (#[trigger] rows[j]).id,
        ) by {
            if j == before.len() {
                assert(shown_at(page, files, seen, n - 1, before[i]));
                let k = choose|k: int|
                    0 <= k < n - 1 && (#[trigger] page[k]).0 == before[i].id && row_for(
                        files,
                        seen,
                        page[k].0,
                    ) == Some(before[i]);
                assert(text::text_lt(page[k].0, page[n - 1].0));
            } else {
                assert(rows[i] == before[i] && rows[j] == before[j]);
            }
        }
        assert forall|k: int| 0 <= k < n implies (row_for(files, seen, (#[trigger] page[k]).0) matches Some(
            row,
        ) ==> rows.contains(row)) by {
            if let Some(row) = row_for(files, seen, page[k].0) {
                if k < n - 1 {
                    assert(before.contains(row));
                    let at = choose|at: int| 0 <= at < before.len() && before[at] == row;
                    assert(rows[at] == row);
                } else {
                    assert(rows[before.len() as int] == row);
                }
            }
        }
    }
}

/// A row belongs to one of the first `n` names.
pub open spec fn shown_at(
    page: Seq<(Seq<char>, ())>,
    files: Seq<RecoveryFileModel>,
    seen: Seq<PageSightModel>,
    n: int,
    row: RecoveryEntryModel,
) -> bool {
    exists|k: int|
        0 <= k < n && (#[trigger] page[k]).0 == row.id && row_for(files, seen, page[k].0) == Some(row)
}

proof fn lemma_rows_bounded(
    page: Seq<(Seq<char>, ())>,
    i: int,
    files: Seq<RecoveryFileModel>,
    seen: Seq<PageSightModel>,
    rows: Seq<RecoveryEntryModel>,
)
    requires
        0 <= i <= page.len(),
    ensures
        listing::rows_from(page, i, files, seen, rows).len() <= rows.len() + page.len() - i,
    decreases page.len() - i,
{
    if i < page.len() {
        let more = match row_for(files, seen, page[i].0) {
            Some(row) => rows.push(row),
            None => rows,
        };
        lemma_rows_bounded(page, i + 1, files, seen, more);
    }
}

/// One page has no more entries than were asked for, its usage covers the whole
/// directory, and the next one starts strictly later.
pub proof fn law_page_is_bounded(
    context: RecoveryContextModel,
    cursor: Option<Seq<char>>,
    limit: usize,
    names: Seq<Seq<char>>,
    sizes: Seq<i64>,
    files: Seq<RecoveryFileModel>,
    seen: Seq<PageSightModel>,
)
    ensures
        listing::list_outcome(context, cursor, limit, names, sizes, files, seen) matches Ok(list) ==> {
            &&& list.entries.len() <= limit
            &&& list.usage == recovery::usage_of(sizes)
            &&& list.next_cursor matches Some(next) ==> listing::beyond(next, cursor)
                && names.contains(next)
        },
{
    if listing::request_outcome(cursor, limit) is Ok {
        let page = listing::page_rows(names, cursor, limit as nat);
        lemma_rows_bounded(page, 0, files, seen, Seq::empty());
        listing::lemma_page_cursor(names, cursor, limit as nat);
    }
}

/// Following the pages of a recovery store that does not change ends. Over all of
/// them the entries come in strict order of their names, so none comes twice;
/// every receipt that was looked at and every data file that no receipt names is
/// among them, and nothing else is.
pub proof fn law_listing_is_complete(
    context: RecoveryContextModel,
    limit: usize,
    names: Seq<Seq<char>>,
    sizes: Seq<i64>,
    files: Seq<RecoveryFileModel>,
    seen: Seq<PageSightModel>,
)
    requires
        0 < limit <= MAX_RECOVERY_PAGE,
        forall|i: int|
            0 <= i < names.len() ==> path::recovery_name_outcome(#[trigger] names[i]) is Ok,
    ensures
        listed(context, None, limit, names, sizes, files, seen) matches Ok(entries) && {
            &&& forall|i: int, j: int|
                0 <= i < j < entries.len() ==> text::text_lt(
                    (#[trigger] entries[i]).id,
                    (#[trigger] entries[j]).id,
                )
            &&& forall|i: int|
                0 <= i < entries.len() ==> names.contains((#[trigger] entries[i]).id) && row_for(
                    files,
                    seen,
                    entries[i].id,
                ) == Some(entries[i])
            &&& forall|k: int|
                0 <= k < names.len() ==> (row_for(files, seen, #[trigger] names[k]) matches Some(row)
                    ==> entries.contains(row))
        },
{
    let rest = listing::remaining(names, None);
    let entries = listing::rows_from(rest, 0, files, seen, Seq::empty());
    lemma_listed(context, None, limit, names, sizes, files, seen);
    listing::law_pages_cover(names, None, 1);
    lemma_rows_shown(rest, rest.len() as int, files, seen);
    assert(rest.take(rest.len() as int) =~= rest);
    assert forall|i: int| 0 <= i < entries.len() implies names.contains((#[trigger] entries[i]).id)
        && row_for(files, seen, entries[i].id) == Some(entries[i]) by {
        assert(shown_at(rest, files, seen, rest.len() as int, entries[i]));
        let k = choose|k: int|
            0 <= k < rest.len() && (#[trigger] rest[k]).0 == entries[i].id && row_for(
                files,
                seen,
                rest[k].0,
            ) == Some(entries[i]);
        listing::lemma_remaining_at(names, None, k);
    }
    assert forall|k: int| 0 <= k < names.len() implies (row_for(files, seen, #[trigger] names[k]) matches Some(
        row,
    ) ==> entries.contains(row)) by {
        let at = listing::lemma_remaining_holds(names, None, k);
        assert(rest[at].0 == names[k]);
    }
}

} // verus!
