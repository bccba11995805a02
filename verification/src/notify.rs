//! When to tell the owner of a request, and how.

use vstd::prelude::*;

use crate::data::Data;
use crate::scan;
use crate::scan::{after_prefix, before_suffix};
use crate::search;
use crate::table;
use crate::table::Table;
use crate::text::{cat4, owned, text_same};
use crate::types::{Request, RequestModel};

verus! {

/// What a notification offers, in order.
pub open spec fn action_names() -> Seq<Seq<char>> {
    seq!["once"@, "allow"@, "deny"@]
}

pub fn actions() -> (names: Vec<String>)
    ensures
        names.deep_view() == action_names(),
{
    let names: Vec<String> = vec![owned("once"), owned("allow"), owned("deny")];
    assert(names.deep_view() =~= action_names());
    names
}

/// A compositor's socket, not the lock beside it.
pub open spec fn compositor(name: Seq<char>) -> bool {
    scan::begins(name, "wayland-"@) && !scan::ends(name, ".lock"@)
}

pub open spec fn named(value: Option<Seq<char>>) -> bool {
    match value {
        Some(s) => s.len() > 0,
        None => false,
    }
}

fn is_named(value: Option<&str>) -> (yes: bool)
    ensures
        yes == named(
            match value {
                Some(s) => Some(s@),
                None => None,
            },
        ),
{
    match value {
        Some(s) => !s.is_empty(),
        None => false,
    }
}

/// Whether a graphical session is present: by the environment, by a compositor's
/// socket among the names in the runtime directory, or by any name where X servers
/// leave theirs. A service that started before the login has no environment to go by.
pub fn display_present_in(
    display: Option<&str>,
    wayland: Option<&str>,
    runtime_names: &Vec<String>,
    x11_names: &Vec<String>,
) -> (present: bool)
    ensures
        present == (named(
            match display {
                Some(s) => Some(s@),
                None => None,
            },
        ) || named(
            match wayland {
                Some(s) => Some(s@),
                None => None,
            },
        ) || (exists|i: int|
            0 <= i < runtime_names.deep_view().len() && compositor(
                #[trigger] runtime_names.deep_view()[i],
            )) || x11_names.deep_view().len() > 0),
{
    if is_named(display) || is_named(wayland) {
        return true;
    }
    let ghost view = runtime_names.deep_view();
    let mut i: usize = 0;
    while i < runtime_names.len()
        invariant
            i <= runtime_names.len(),
            view == runtime_names.deep_view(),
            forall|j: int| 0 <= j < i ==> !compositor(#[trigger] view[j]),
        decreases runtime_names.len() - i,
    {
        assert(view[i as int] == runtime_names@[i as int]@);
        if after_prefix(&runtime_names[i], "wayland-").is_some() && before_suffix(
            &runtime_names[i],
            ".lock",
        ).is_none() {
            assert(compositor(view[i as int]));
            return true;
        }
        i += 1;
    }
    x11_names.len() > 0
}

/// Notifications are shown on a display unless they are switched off.
pub fn enabled(setting: Option<&str>, display: bool) -> (yes: bool)
    ensures
        yes == (display && !(setting matches Some(s) && s@ == "0"@)),
{
    match setting {
        Some(s) => display && !text_same(s, "0"),
        None => display,
    }
}

pub open spec fn notice(request: RequestModel) -> Seq<char> {
    request.from + " wants "@ + request.tool + " on this machine"@
}

pub fn notification_text(request: &Request) -> (text: String)
    ensures
        text@ == notice(request@),
{
    cat4(&request.from.0, " wants ", &request.tool, " on this machine")
}

/// Which pending requests have been seen and which have been shown.
#[derive(Debug, Clone)]
pub struct Watch {
    pub observed: Table<()>,
    pub delivered: Table<()>,
}

pub open spec fn request_ids(requests: Seq<RequestModel>) -> Seq<Seq<char>> {
    Seq::new(requests.len(), |i: int| requests[i].id)
}

impl Watch {
    pub fn new() -> (watch: Watch)
        ensures
            watch.observed.deep_view().len() == 0,
            watch.delivered.deep_view().len() == 0,
    {
        Watch { observed: Table::new(), delivered: Table::new() }
    }

    /// Forget requests that are no longer pending.
    pub fn refresh(&mut self, pending: &Vec<Request>)
        ensures
            final(self).observed.deep_view() == search::kept(
                old(self).observed.deep_view(),
                table::keyed_by(request_ids(pending.deep_view())),
            ),
            final(self).delivered.deep_view() == search::kept(
                old(self).delivered.deep_view(),
                table::keyed_by(request_ids(pending.deep_view())),
            ),
    {
        let ghost view = pending.deep_view();
        let mut ids: Vec<String> = Vec::new();
        let mut i: usize = 0;
        assert(ids.deep_view() =~= request_ids(view.take(0)));
        while i < pending.len()
            invariant
                i <= pending.len(),
                view == pending.deep_view(),
                ids.deep_view() == request_ids(view.take(i as int)),
            decreases pending.len() - i,
        {
            let ghost before = ids.deep_view();
            assert(view[i as int] == pending@[i as int]@);
            ids.push(pending[i].id.dup());
            assert(ids.deep_view() =~= before.push(view[i as int].id));
            assert(request_ids(view.take(i + 1)) =~= before.push(view[i as int].id));
            i += 1;
        }
        assert(view.take(i as int) =~= view);
        self.observed.restrict(&ids);
        self.delivered.restrict(&ids);
    }

    /// True the first time a request is seen.
    pub fn observe(&mut self, id: &str) -> (fresh: bool)
        ensures
            fresh == !table::holds(old(self).observed.deep_view(), id@),
            final(self).observed.deep_view() == if fresh {
                table::stored(old(self).observed.deep_view(), id@, ())
            } else {
                old(self).observed.deep_view()
            },
            final(self).delivered == old(self).delivered,
    {
        crate::job::claim(&mut self.observed, id)
    }

    /// A request is due until a notification of it has been shown.
    pub fn due(&self, id: &str, enabled: bool) -> (yes: bool)
        ensures
            yes == (enabled && !table::holds(self.delivered.deep_view(), id@)),
    {
        enabled && !self.delivered.has(id)
    }

    pub fn shown(&mut self, id: &str)
        ensures
            final(self).delivered.deep_view() == table::stored(old(self).delivered.deep_view(), id@, ()),
            final(self).observed == old(self).observed,
    {
        self.delivered.put(owned(id), ());
    }
}

} // verus!
