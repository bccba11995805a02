//! Pages of the recovery store.

use vstd::prelude::*;

use crate::data::Data;
use crate::error;
use crate::error::{usage, ClixError, ErrorModel, Outcome, Result};
use crate::pin::content;
use crate::pin::content::state_text;
use crate::pin::inspect;
use crate::pin::inspect::version_print;
use crate::pin::path;
use crate::pin::path::valid_recovery_name;
use crate::pin::record::{
    RecoveryContext, RecoveryContextModel, RecoveryEntry, RecoveryEntryModel, RecoveryInspection,
    RecoveryInspectionModel, RecoveryList, RecoveryListModel, RecoveryState,
};
use crate::pin::recovery;
use crate::pin::recovery::{
    file_names_version, has_json_name, recovery_usage, RecoveryFile, RecoveryFileModel,
};
use crate::search;
use crate::table;
use crate::table::Table;
use crate::text;
use crate::text::{owned, text_less, text_same};

verus! {

/// The most entries on one page.
pub const MAX_RECOVERY_PAGE: usize = 128;

/// A name beyond the one that the last page ended with.
pub open spec fn beyond(name: Seq<char>, cursor: Option<Seq<char>>) -> bool {
    match cursor {
        Some(last) => text::text_lt(last, name),
        None => true,
    }
}

/// The names from `i` on that are beyond a cursor, in order.
pub open spec fn names_beyond(
    names: Seq<Seq<char>>,
    cursor: Option<Seq<char>>,
    i: int,
    rows: Seq<(Seq<char>, ())>,
) -> Seq<(Seq<char>, ())>
    decreases names.len() - i,
{
    if i >= names.len() {
        rows
    } else if beyond(names[i], cursor) {
        names_beyond(names, cursor, i + 1, table::stored(rows, names[i], ()))
    } else {
        names_beyond(names, cursor, i + 1, rows)
    }
}

/// Every name beyond a cursor, in order.
pub open spec fn remaining(names: Seq<Seq<char>>, cursor: Option<Seq<char>>) -> Seq<
    (Seq<char>, ()),
> {
    names_beyond(names, cursor, 0, Seq::empty())
}

/// The names on the page after a cursor.
pub open spec fn page_rows(names: Seq<Seq<char>>, cursor: Option<Seq<char>>, limit: nat) -> Seq<
    (Seq<char>, ()),
> {
    let rest = remaining(names, cursor);
    if rest.len() > limit {
        rest.take(limit as int)
    } else {
        rest
    }
}

/// Where the next page starts, if there is one.
pub open spec fn page_cursor(
    names: Seq<Seq<char>>,
    cursor: Option<Seq<char>>,
    limit: nat,
) -> Option<Seq<char>> {
    if remaining(names, cursor).len() > limit {
        Some(page_rows(names, cursor, limit).last().0)
    } else {
        None
    }
}

pub open spec fn request_outcome(cursor: Option<Seq<char>>, limit: usize) -> Outcome<()> {
    if limit == 0 || limit > MAX_RECOVERY_PAGE {
        Err(ErrorModel::Usage("recovery page size must be 1 through 128"@))
    } else {
        match cursor {
            Some(name) => path::recovery_name_outcome(name),
            None => Ok(()),
        }
    }
}

proof fn lemma_names_beyond(
    names: Seq<Seq<char>>,
    cursor: Option<Seq<char>>,
    i: int,
    rows: Seq<(Seq<char>, ())>,
)
    requires
        table::ascending(rows),
        0 <= i <= names.len(),
    ensures
        table::ascending(names_beyond(names, cursor, i, rows)),
        forall|name: Seq<char>| #[trigger]
            table::lookup(names_beyond(names, cursor, i, rows), name) == if table::lookup(rows, name) is Some || (
            beyond(name, cursor) && exists|j: int|
                i <= j < names.len() && #[trigger] names[j] == name) {
                Some(())
            } else {
                None::<()>
            },
    decreases names.len() - i,
{
    if i < names.len() {
        let next = if beyond(names[i], cursor) {
            table::stored(rows, names[i], ())
        } else {
            rows
        };
        table::lemma_stored_ascending(rows, names[i], ());
        lemma_names_beyond(names, cursor, i + 1, next);
        assert forall|name: Seq<char>| #[trigger]
            table::lookup(names_beyond(names, cursor, i, rows), name) == if table::lookup(rows, name) is Some || (
            beyond(name, cursor) && exists|j: int|
                i <= j < names.len() && #[trigger] names[j] == name) {
                Some(())
            } else {
                None::<()>
            } by {
            table::lemma_stored_lookup(rows, names[i], (), name);
            assert(table::lookup(names_beyond(names, cursor, i + 1, next), name) == if table::lookup(
                next,
                name,
            ) is Some || (beyond(name, cursor) && exists|j: int|
                i + 1 <= j < names.len() && #[trigger] names[j] == name) {
                Some(())
            } else {
                None::<()>
            });
            if exists|j: int| i <= j < names.len() && #[trigger] names[j] == name {
                let j = choose|j: int| i <= j < names.len() && #[trigger] names[j] == name;
                if j > i {
                    assert(names[j] == name);
                }
            }
        }
    }
}

/// The pages of a recovery store, one after the other, show every name once and
/// in order: a page and what remains after it are what remained before.
pub proof fn law_pages_cover(names: Seq<Seq<char>>, cursor: Option<Seq<char>>, limit: nat)
    requires
        limit > 0,
    ensures
        table::ascending(remaining(names, cursor)),
        page_rows(names, cursor, limit).len() <= limit,
        (match page_cursor(names, cursor, limit) {
            Some(next) => remaining(names, cursor) == page_rows(names, cursor, limit) + remaining(
                names,
                Some(next),
            ),
            None => remaining(names, cursor) == page_rows(names, cursor, limit),
        }),
{
    let none = Seq::<(Seq<char>, ())>::empty();
    let rest = remaining(names, cursor);
    lemma_names_beyond(names, cursor, 0, none);
    if rest.len() > limit {
        let page = rest.take(limit as int);
        let last = page.last().0;
        let after = remaining(names, Some(last));
        lemma_names_beyond(names, Some(last), 0, none);
        let tail = rest.skip(limit as int);
        assert forall|i: int, j: int| 0 <= i < j < tail.len() implies text::text_lt(
            #[trigger] tail[i].0,
            #[trigger] tail[j].0,
        ) by {
            assert(text::text_lt(rest[i + limit].0, rest[j + limit].0));
        }
        assert forall|name: Seq<char>| #[trigger] table::lookup(after, name) == table::lookup(tail, name) by {
            table::lemma_rank_bounds(none, name);
            assert(table::lookup(none, name) is None);
            table::lemma_rank_bounds(rest, name);
            table::lemma_rank_bounds(tail, name);
            assert(table::lookup(rest, name) == if beyond(name, cursor) && exists|j: int|
                0 <= j < names.len() && #[trigger] names[j] == name {
                Some(())
            } else {
                None::<()>
            });
            assert(last == rest[limit - 1].0);
            text::lemma_text_lt_order(last, name, last);
            if table::holds(tail, name) {
                let at = table::rank(tail, name);
                assert(tail[at] == rest[at + limit]);
                table::lemma_holds_at(rest, name, at + limit);
                assert(text::text_lt(rest[limit - 1].0, rest[at + limit].0));
            }
            if table::lookup(after, name) is Some {
                assert(beyond(name, Some(last)));
                if cursor is Some {
                    table::lemma_holds_at(rest, last, limit - 1);
                    assert(table::lookup(rest, last) == Some(()));
                    assert(beyond(last, cursor));
                    text::lemma_text_lt_order(cursor->0, last, name);
                }
                assert(table::lookup(rest, name) is Some);
                let at = table::rank(rest, name);
                if at < limit {
                    if at < limit - 1 {
                        assert(text::text_lt(rest[at].0, rest[limit - 1].0));
                        text::lemma_text_lt_order(name, last, name);
                    }
                }
                assert(at >= limit);
                assert(tail[at - limit] == rest[at]);
                table::lemma_holds_at(tail, name, at - limit);
            }
        }
        table::lemma_same_lookups(after, tail);
        assert(rest =~= page + tail);
    }
}

/// A name among what remains is one of the names.
pub proof fn lemma_remaining_at(names: Seq<Seq<char>>, cursor: Option<Seq<char>>, k: int)
    requires
        0 <= k < remaining(names, cursor).len(),
    ensures
        names.contains(remaining(names, cursor)[k].0),
        beyond(remaining(names, cursor)[k].0, cursor),
{
    let none = Seq::<(Seq<char>, ())>::empty();
    let rest = remaining(names, cursor);
    let name = rest[k].0;
    lemma_names_beyond(names, cursor, 0, none);
    table::lemma_holds_at(rest, name, k);
    table::lemma_rank_bounds(none, name);
    assert(table::lookup(none, name) is None);
    assert(table::lookup(rest, name) is Some);
    let j = choose|j: int| 0 <= j < names.len() && #[trigger] names[j] == name;
    assert(names.contains(names[j]));
}

/// Each name beyond a cursor remains.
pub proof fn lemma_remaining_holds(names: Seq<Seq<char>>, cursor: Option<Seq<char>>, k: int) -> (at: int)
    requires
        0 <= k < names.len(),
        beyond(names[k], cursor),
    ensures
        0 <= at < remaining(names, cursor).len(),
        remaining(names, cursor)[at].0 == names[k],
{
    let none = Seq::<(Seq<char>, ())>::empty();
    let rest = remaining(names, cursor);
    lemma_names_beyond(names, cursor, 0, none);
    assert(names[k] == names[k]);
    assert(table::lookup(rest, names[k]) is Some);
    table::lemma_rank_bounds(rest, names[k]);
    table::rank(rest, names[k])
}

/// Where the next page starts is one of the names, beyond where this one started.
pub proof fn lemma_page_cursor(names: Seq<Seq<char>>, cursor: Option<Seq<char>>, limit: nat)
    requires
        limit > 0,
    ensures
        page_cursor(names, cursor, limit) matches Some(next) ==> names.contains(next) && beyond(
            next,
            cursor,
        ),
{
    if remaining(names, cursor).len() > limit {
        lemma_remaining_at(names, cursor, limit - 1);
    }
}

/// Storing a name and cutting off after `m` may as well cut off first.
proof fn lemma_cut(rows: Seq<(Seq<char>, ())>, name: Seq<char>, m: int)
    requires
        table::ascending(rows),
        0 <= m <= rows.len(),
    ensures
        ({
            let full = table::stored(rows, name, ());
            let cut = table::stored(rows.take(m), name, ());
            full.len() >= m && cut.len() >= m && full.take(m) == cut.take(m)
        }),
{
    table::lemma_rank_bounds(rows, name);
    let r = table::rank(rows, name);
    let head = rows.take(m);
    if r < m {
        assert forall|i: int| 0 <= i < r implies text::text_lt(#[trigger] head[i].0, name) by {
            assert(head[i] == rows[i]);
        }
        assert(head[r] == rows[r]);
        table::lemma_rank_is(head, name, r);
    } else {
        assert forall|i: int| 0 <= i < m implies text::text_lt(#[trigger] head[i].0, name) by {
            assert(head[i] == rows[i]);
        }
        table::lemma_rank_is(head, name, m);
    }
    assert(table::stored(rows, name, ()).take(m) =~= table::stored(head, name, ()).take(m));
}

/// The first rows of a table, no more than `m`.
pub open spec fn headmost(rows: Seq<(Seq<char>, ())>, m: int) -> Seq<(Seq<char>, ())> {
    if rows.len() > m {
        rows.take(m)
    } else {
        rows
    }
}

/// Beyond a cut, later names may as well be added to what was cut.
proof fn lemma_headmost(
    names: Seq<Seq<char>>,
    cursor: Option<Seq<char>>,
    i: int,
    rows: Seq<(Seq<char>, ())>,
    m: int,
)
    requires
        table::ascending(rows),
        0 <= i <= names.len(),
        m >= 0,
    ensures
        headmost(names_beyond(names, cursor, i, rows), m) == headmost(
            names_beyond(names, cursor, i, headmost(rows, m)),
            m,
        ),
    decreases names.len() - i,
{
    let cut = headmost(rows, m);
    if rows.len() > m {
        assert forall|a: int, b: int| 0 <= a < b < cut.len() implies text::text_lt(
            #[trigger] cut[a].0,
            #[trigger] cut[b].0,
        ) by {
            assert(text::text_lt(rows[a].0, rows[b].0));
        }
        if i < names.len() {
            if beyond(names[i], cursor) {
                let name = names[i];
                let full = table::stored(rows, name, ());
                let less = table::stored(cut, name, ());
                table::lemma_stored_ascending(rows, name, ());
                table::lemma_stored_ascending(cut, name, ());
                lemma_cut(rows, name, m);
                lemma_headmost(names, cursor, i + 1, full, m);
                lemma_headmost(names, cursor, i + 1, less, m);
                table::lemma_rank_bounds(rows, name);
                assert(full.len() > m);
                assert(headmost(full, m) == full.take(m));
                assert(headmost(less, m) =~= less.take(m));
            } else {
                lemma_headmost(names, cursor, i + 1, rows, m);
            }
        }
    }
}

/// The names on a page, and where the next page starts. Memory stays bounded by
/// the page, whatever the directory holds.
pub fn page_names(names: &Vec<String>, cursor: Option<&str>, limit: usize) -> (result: Result<
    (Table<()>, Option<String>),
>)
    ensures
        ({
            let after = match cursor {
                Some(name) => Some(name@),
                None => None,
            };
            match result {
                Ok((page, next)) => request_outcome(after, limit) is Ok && page.deep_view()
                    == page_rows(names.deep_view(), after, limit as nat) && next.deep_view()
                    == page_cursor(names.deep_view(), after, limit as nat),
                Err(e) => request_outcome(after, limit) == Err::<(), ErrorModel>(e@),
            }
        }),
{
    if limit == 0 || limit > MAX_RECOVERY_PAGE {
        return Err(usage("recovery page size must be 1 through 128"));
    }
    if let Some(name) = cursor {
        if let Err(e) = valid_recovery_name(name) {
            return Err(e);
        }
    }
    let ghost view = names.deep_view();
    let ghost after = match cursor {
        Some(name) => Some(name@),
        None => None,
    };
    let ghost goal = headmost(remaining(view, after), limit + 1);
    let mut page: Table<()> = Table::new();
    let mut i: usize = 0;
    while i < names.len()
        invariant
            i <= names.len(),
            view == names.deep_view(),
            0 < limit <= MAX_RECOVERY_PAGE,
            after == match cursor {
                Some(name) => Some(name@),
                None => None,
            },
            goal == headmost(remaining(view, after), limit + 1),
            page.deep_view().len() <= limit + 1,
            goal == headmost(names_beyond(view, after, i as int, page.deep_view()), limit + 1),
        decreases names.len() - i,
    {
        assert(view[i as int] == names@[i as int]@);
        let fits: bool = match cursor {
            Some(last) => text_less(last, &names[i]),
            None => true,
        };
        if fits {
            page.observe();
            let ghost before = page.deep_view();
            page.put(names[i].dup(), ());
            let ghost full = page.deep_view();
            proof {
                table::lemma_rank_bounds(before, view[i as int]);
                table::lemma_stored_ascending(before, view[i as int], ());
                lemma_headmost(view, after, i + 1, full, limit + 1);
            }
            if page.len() > limit + 1 {
                let last = page.key_at(limit + 1).dup();
                proof {
                    table::lemma_holds_at(full, last@, limit + 1);
                }
                page.remove(&last);
                assert(page.deep_view() =~= full.take(limit + 1));
            }
        }
        i += 1;
    }
    assert(goal == page.deep_view());
    if page.len() > limit {
        page.observe();
        let ghost full = page.deep_view();
        let last = page.key_at(limit).dup();
        proof {
            table::lemma_holds_at(full, last@, limit as int);
        }
        page.remove(&last);
        assert(page.deep_view() =~= full.take(limit as int));
        assert(page.deep_view() =~= page_rows(view, after, limit as nat));
        let next = page.key_at(limit - 1).dup();
        Ok((page, Some(next)))
    } else {
        assert(page.deep_view() =~= page_rows(view, after, limit as nat));
        Ok((page, None))
    }
}

/// What was found of one receipt on a page: its inspection, and a second look at
/// the live file before the row is called healthy.
#[derive(Debug)]
pub struct PageSight {
    pub id: String,
    pub view: Result<RecoveryInspection>,
    pub recheck: Option<ClixError>,
}

#[verifier::ext_equal]
pub struct PageSightModel {
    pub id: Seq<char>,
    pub view: Outcome<RecoveryInspectionModel>,
    pub recheck: Option<ErrorModel>,
}

impl View for PageSight {
    type V = PageSightModel;

    open spec fn view(&self) -> PageSightModel {
        PageSightModel {
            id: self.id@,
            view: error::outcome(self.view),
            recheck: match self.recheck {
                Some(e) => Some(e@),
                None => None,
            },
        }
    }
}

impl DeepView for PageSight {
    type V = PageSightModel;

    open spec fn deep_view(&self) -> PageSightModel {
        self@
    }
}

/// A receipt that is settled and whose retained version is as recorded.
pub open spec fn healthy(view: RecoveryInspectionModel) -> bool {
    (view.receipt.state == RecoveryState::Retained || view.receipt.state
        == RecoveryState::Resolved) && inspect::print_of_version(view.retained) == view.receipt.expected
}

/// The row for a receipt.
pub open spec fn receipt_row(sight: PageSightModel) -> RecoveryEntryModel {
    match sight.view {
        Err(e) => RecoveryEntryModel {
            id: sight.id,
            path: None,
            state: "invalid"@,
            problem: Some(e.message()),
        },
        Ok(view) => if !view.recorded {
            RecoveryEntryModel {
                id: sight.id,
                path: None,
                state: "unreferenced"@,
                problem: Some(view.explanation),
            }
        } else {
            RecoveryEntryModel {
                id: sight.id,
                path: Some(view.receipt.path),
                state: content::state_word(view.receipt.state),
                problem: if view.receipt.path.len() > 0 && sight.recheck is Some {
                    Some(sight.recheck->0.message())
                } else if healthy(view) {
                    None
                } else {
                    Some(view.explanation)
                },
            }
        },
    }
}

/// The row for data that no receipt refers to.
pub open spec fn stray_row(id: Seq<char>) -> RecoveryEntryModel {
    RecoveryEntryModel {
        id,
        path: None,
        state: "unreferenced"@,
        problem: Some(
            "unreferenced recovery data; preserved, never automatically deleted"@,
        ),
    }
}

/// Some readable receipt names a version.
pub open spec fn linked(files: Seq<RecoveryFileModel>, version: Seq<char>) -> bool {
    exists|i: int|
        0 <= i < files.len() && recovery::is_json((#[trigger] files[i]).name) && recovery::names_version(
            files[i],
            version,
        )
}

pub open spec fn sight_of(id: Seq<char>) -> spec_fn(PageSightModel) -> bool {
    |s: PageSightModel| s.id == id
}

/// The rows of a page, from `i` on: receipts as they were found, and the data that
/// belongs to no receipt.
pub open spec fn rows_from(
    page: Seq<(Seq<char>, ())>,
    i: int,
    files: Seq<RecoveryFileModel>,
    seen: Seq<PageSightModel>,
    rows: Seq<RecoveryEntryModel>,
) -> Seq<RecoveryEntryModel>
    decreases page.len() - i,
{
    if i >= page.len() {
        rows
    } else {
        let id = page[i].0;
        let more = if recovery::is_json(id) {
            match search::first(seen, sight_of(id)) {
                Some(at) => rows.push(receipt_row(seen[at])),
                None => rows,
            }
        } else if linked(files, id) {
            rows
        } else {
            rows.push(stray_row(id))
        };
        rows_from(page, i + 1, files, seen, more)
    }
}

pub open spec fn any_problem(rows: Seq<RecoveryEntryModel>) -> bool {
    exists|i: int| 0 <= i < rows.len() && (#[trigger] rows[i]).problem is Some
}

/// A page of the recovery store. Usage covers the whole directory; the problems
/// and `blocked` beyond admission cover this page only.
pub open spec fn list_outcome(
    context: RecoveryContextModel,
    cursor: Option<Seq<char>>,
    limit: usize,
    names: Seq<Seq<char>>,
    sizes: Seq<i64>,
    files: Seq<RecoveryFileModel>,
    seen: Seq<PageSightModel>,
) -> Outcome<RecoveryListModel> {
    match request_outcome(cursor, limit) {
        Err(e) => Err(e),
        Ok(_) => {
            let page = page_rows(names, cursor, limit as nat);
            let entries = rows_from(page, 0, files, seen, Seq::empty());
            Ok(
                RecoveryListModel {
                    body: context.body,
                    usage: recovery::usage_of(sizes),
                    blocked: recovery::usage_of(sizes).admission_blocked || any_problem(entries),
                    entries,
                    next_cursor: page_cursor(names, cursor, limit as nat),
                },
            )
        },
    }
}

fn find_sight(seen: &Vec<PageSight>, id: &str) -> (at: Option<usize>)
    ensures
        (match at {
            Some(i) => i < seen.len() && search::first(seen.deep_view(), sight_of(id@)) == Some(i as int),
            None => search::first(seen.deep_view(), sight_of(id@)) is None,
        }),
{
    let ghost view = seen.deep_view();
    let mut i: usize = 0;
    while i < seen.len()
        invariant
            i <= seen.len(),
            view == seen.deep_view(),
            forall|j: int| 0 <= j < i ==> !sight_of(id@)(#[trigger] view[j]),
        decreases seen.len() - i,
    {
        assert(view[i as int] == seen@[i as int]@);
        if text_same(&seen[i].id, id) {
            proof {
                search::lemma_first_at(view, sight_of(id@), i as int);
            }
            return Some(i);
        }
        i += 1;
    }
    proof {
        search::lemma_first_none(view, sight_of(id@));
    }
    None
}

fn row_of(sight: &PageSight) -> (row: RecoveryEntry)
    ensures
        row@ == receipt_row(sight@),
{
    match &sight.view {
        Err(e) => RecoveryEntry {
            id: sight.id.dup(),
            path: None,
            state: owned("invalid"),
            problem: Some(e.message()),
        },
        Ok(view) => if !view.recorded {
            RecoveryEntry {
                id: sight.id.dup(),
                path: None,
                state: owned("unreferenced"),
                problem: Some(view.explanation.dup()),
            }
        } else {
            let settled = view.receipt.state == RecoveryState::Retained || view.receipt.state
                == RecoveryState::Resolved;
            let well = settled && version_print(&view.retained).same(&view.receipt.expected);
            let problem: Option<String> = match &sight.recheck {
                Some(e) => if !view.receipt.path.as_str().is_empty() {
                    Some(e.message())
                } else if well {
                    None
                } else {
                    Some(view.explanation.dup())
                },
                None => if well {
                    None
                } else {
                    Some(view.explanation.dup())
                },
            };
            RecoveryEntry {
                id: sight.id.dup(),
                path: Some(view.receipt.path.dup()),
                state: state_text(view.receipt.state),
                problem,
            }
        },
    }
}

fn is_linked(files: &Vec<RecoveryFile>, version: &str) -> (yes: bool)
    ensures
        yes == linked(files.deep_view(), version@),
{
    let ghost view = files.deep_view();
    let mut i: usize = 0;
    while i < files.len()
        invariant
            i <= files.len(),
            view == files.deep_view(),
            forall|j: int|
                0 <= j < i ==> !(recovery::is_json((#[trigger] view[j]).name) && recovery::names_version(
                    view[j],
                    version@,
                )),
        decreases files.len() - i,
    {
        assert(view[i as int] == files@[i as int]@);
        if has_json_name(&files[i].name) && file_names_version(&files[i], version) {
            assert(recovery::is_json(view[i as int].name));
            return true;
        }
        i += 1;
    }
    false
}

fn has_problem(rows: &Vec<RecoveryEntry>) -> (yes: bool)
    ensures
        yes == any_problem(rows.deep_view()),
{
    let ghost view = rows.deep_view();
    let mut i: usize = 0;
    while i < rows.len()
        invariant
            i <= rows.len(),
            view == rows.deep_view(),
            forall|j: int| 0 <= j < i ==> (#[trigger] view[j]).problem is None,
        decreases rows.len() - i,
    {
        assert(view[i as int] == rows@[i as int]@);
        if rows[i].problem.is_some() {
            assert(view[i as int].problem is Some);
            return true;
        }
        i += 1;
    }
    false
}

impl RecoveryContext {
    /// Sorted basename cursor. A page may be empty when all selected names belong
    /// to receipts on another page; go on until there is no next cursor. `names`
    /// and `sizes` are those of the whole directory, `files` its entries, and
    /// `seen` the inspections of the receipts on this page.
    pub fn list_page(
        &self,
        cursor: Option<&str>,
        limit: usize,
        names: &Vec<String>,
        sizes: &Vec<i64>,
        files: &Vec<RecoveryFile>,
        seen: &Vec<PageSight>,
    ) -> (result: Result<RecoveryList>)
        ensures
            error::outcome(result) == list_outcome(
                self@,
                match cursor {
                    Some(name) => Some(name@),
                    None => None,
                },
                limit,
                names.deep_view(),
                sizes@,
                files.deep_view(),
                seen.deep_view(),
            ),
    {
        let (page, next_cursor) = match page_names(names, cursor, limit) {
            Ok(page) => page,
            Err(e) => return Err(e),
        };
        let ghost rows = page.deep_view();
        let ghost fv = files.deep_view();
        let ghost sv = seen.deep_view();
        let ghost goal = rows_from(rows, 0, fv, sv, Seq::empty());
        let mut entries: Vec<RecoveryEntry> = Vec::new();
        let mut i: usize = 0;
        assert(entries.deep_view() =~= Seq::<RecoveryEntryModel>::empty());
        while i < page.len()
            invariant
                i <= rows.len(),
                rows == page.deep_view(),
                fv == files.deep_view(),
                sv == seen.deep_view(),
                goal == rows_from(rows, i as int, fv, sv, entries.deep_view()),
            decreases rows.len() - i,
        {
            let id = page.key_at(i);
            let ghost before = entries.deep_view();
            if has_json_name(id) {
                if let Some(at) = find_sight(seen, id) {
                    assert(sv[at as int] == seen@[at as int]@);
                    let row = row_of(&seen[at]);
                    let ghost item = row@;
                    entries.push(row);
                    assert(entries.deep_view() =~= before.push(item));
                }
            } else if !is_linked(files, id) {
                let row = RecoveryEntry {
                    id: id.dup(),
                    path: None,
                    state: owned("unreferenced"),
                    problem: Some(
                        owned(
                            "unreferenced recovery data; preserved, never automatically deleted",
                        ),
                    ),
                };
                let ghost item = row@;
                entries.push(row);
                assert(entries.deep_view() =~= before.push(item));
            }
            i += 1;
        }
        let report = recovery_usage(sizes);
        let blocked = report.admission_blocked || has_problem(&entries);
        Ok(
            RecoveryList { body: self.body.dup(), usage: report, blocked, entries, next_cursor },
        )
    }
}

} // verus!
