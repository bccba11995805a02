//! What the tray shows.

use vstd::prelude::*;

use crate::notify;
use crate::scan;
use crate::scan::replace_char;
use crate::store::{Store, StoreModel};
use crate::text;
use crate::text::{cat2, cat3, decimal_text, owned, text_same};
use crate::types::{GrantModel, Job, JobModel, JobStatus, RequestModel};

verus! {

/// The newest running job, looking back from the end.
pub open spec fn newest_running(jobs: Seq<JobModel>) -> Option<JobModel>
    decreases jobs.len(),
{
    if jobs.len() == 0 {
        None
    } else if jobs.last().status is Running {
        Some(jobs.last())
    } else {
        newest_running(jobs.drop_last())
    }
}

pub open spec fn running_label(job: JobModel) -> Seq<char> {
    (if job.argv.len() > 0 {
        job.argv[0]
    } else {
        "?"@
    }) + " from "@ + job.from
}

/// Pending requests come first, a running job next.
pub open spec fn tooltip(s: StoreModel) -> Seq<char> {
    if s.requests.len() == 1 {
        "1 request"@
    } else if s.requests.len() > 1 {
        text::decimal(s.requests.len()) + " requests"@
    } else {
        match newest_running(s.jobs) {
            Some(job) => running_label(job),
            None => "Clix is running"@,
        }
    }
}

/// Idle: `Clix is running`. Pending: `1 request`. Running job: `{tool} from {body}`.
pub fn tray_tooltip(store: &Store) -> (text: String)
    ensures
        text@ == tooltip(store@),
{
    if store.requests.len() == 1 {
        return owned("1 request");
    }
    if store.requests.len() > 1 {
        let n = decimal_text(store.requests.len() as u64);
        return cat2(&n, " requests");
    }
    let ghost view = store@.jobs;
    let mut i: usize = store.jobs.len();
    assert(view.take(i as int) =~= view);
    while i > 0
        invariant
            i <= store.jobs.len(),
            view == store@.jobs,
            store@.requests.len() == 0,
            newest_running(view) == newest_running(view.take(i as int)),
        decreases i,
    {
        let ghost part = view.take(i as int);
        i -= 1;
        assert(part.last() == store.jobs@[i as int]@);
        assert(part.drop_last() =~= view.take(i as int));
        let job = &store.jobs[i];
        if let JobStatus::Running = &job.status {
            return label_of(job);
        }
    }
    owned("Clix is running")
}

fn label_of(job: &Job) -> (text: String)
    ensures
        text@ == running_label(job@),
{
    if job.argv.len() > 0 {
        assert(job@.argv[0] == job.argv@[0]@);
        cat3(&job.argv[0], " from ", &job.from.0)
    } else {
        cat3("?", " from ", &job.from.0)
    }
}

/// The tray is shown on a display unless it is switched off.
pub fn tray_enabled(setting: Option<&str>, display: Option<&str>, wayland: Option<&str>) -> (yes:
    bool)
    ensures
        yes == (!(setting matches Some(s) && s@ == "0"@) && (notify::named(
            match display {
                Some(s) => Some(s@),
                None => None,
            },
        ) || notify::named(
            match wayland {
                Some(s) => Some(s@),
                None => None,
            },
        ))),
{
    if let Some(s) = setting {
        if text_same(s, "0") {
            return false;
        }
    }
    if let Some(s) = display {
        if !s.is_empty() {
            return true;
        }
    }
    match wayland {
        Some(s) => !s.is_empty(),
        None => false,
    }
}

/// A label in which no character marks a key to press.
pub fn menu_label(text: &str) -> (label: String)
    ensures
        label@ == scan::replaced(text@, '_', "__"@),
{
    replace_char(text, '_', "__")
}

pub open spec fn request_label(r: RequestModel) -> Seq<char> {
    scan::replaced(r.from + " wants "@ + r.tool, '_', "__"@)
}

/// One label for each pending request.
pub fn pending_labels(store: &Store) -> (labels: Vec<String>)
    ensures
        labels.deep_view() == Seq::new(
            store@.requests.len(),
            |i: int| request_label(store@.requests[i]),
        ),
{
    let ghost view = store@.requests;
    let ghost all = Seq::new(view.len(), |i: int| request_label(view[i]));
    let mut labels: Vec<String> = Vec::new();
    let mut i: usize = 0;
    assert(labels.deep_view() =~= all.take(0));
    while i < store.requests.len()
        invariant
            i <= store.requests.len(),
            view == store@.requests,
            all == Seq::new(view.len(), |i: int| request_label(view[i])),
            labels.deep_view() == all.take(i as int),
        decreases store.requests.len() - i,
    {
        let ghost before = labels.deep_view();
        let r = &store.requests[i];
        assert(view[i as int] == r@);
        let text = cat3(&r.from.0, " wants ", &r.tool);
        let label = menu_label(&text);
        let ghost item = label@;
        labels.push(label);
        assert(labels.deep_view() =~= before.push(item));
        assert(all.take(i + 1) =~= before.push(item));
        i += 1;
    }
    assert(all.take(i as int) =~= all);
    labels
}

pub open spec fn grant_label(g: GrantModel) -> Seq<char> {
    scan::replaced(g.tool, '_', "__"@)
}

/// One label for each grant.
pub fn hands_labels(store: &Store) -> (labels: Vec<String>)
    ensures
        labels.deep_view() == Seq::new(
            store@.grants.len(),
            |i: int| grant_label(store@.grants[i]),
        ),
{
    let ghost view = store@.grants;
    let ghost all = Seq::new(view.len(), |i: int| grant_label(view[i]));
    let mut labels: Vec<String> = Vec::new();
    let mut i: usize = 0;
    assert(labels.deep_view() =~= all.take(0));
    while i < store.grants.len()
        invariant
            i <= store.grants.len(),
            view == store@.grants,
            all == Seq::new(view.len(), |i: int| grant_label(view[i])),
            labels.deep_view() == all.take(i as int),
        decreases store.grants.len() - i,
    {
        let ghost before = labels.deep_view();
        assert(view[i as int] == store.grants@[i as int]@);
        let label = menu_label(&store.grants[i].tool);
        let ghost item = label@;
        labels.push(label);
        assert(labels.deep_view() =~= before.push(item));
        assert(all.take(i + 1) =~= before.push(item));
        i += 1;
    }
    assert(all.take(i as int) =~= all);
    labels
}

/// What the tray offers for a request: the action and how it is labelled.
pub open spec fn offered() -> Seq<(Seq<char>, Seq<char>)> {
    seq![
        ("once"@, "Allow once"@),
        ("allow"@, "Allow this machine"@),
        ("deny"@, "Deny"@),
    ]
}

pub fn tray_actions() -> (actions: Vec<(String, String)>)
    ensures
        actions.deep_view() == offered(),
{
    let actions: Vec<(String, String)> = vec![
        (owned("once"), owned("Allow once")),
        (owned("allow"), owned("Allow this machine")),
        (owned("deny"), owned("Deny")),
    ];
    assert(actions.deep_view() =~= offered());
    actions
}

/// The icon's width and height.
pub const ICON_SIZE: usize = 16;

/// One pixel as alpha, red, green and blue: a square in a clear frame.
pub open spec fn pixel(x: int, y: int) -> Seq<u8> {
    if 3 <= x < 13 && 3 <= y < 13 {
        seq![255u8, 42u8, 157u8, 143u8]
    } else {
        seq![0u8, 0u8, 0u8, 0u8]
    }
}

/// The first pixels, row by row.
pub open spec fn pixels(n: nat) -> Seq<u8>
    decreases n,
{
    if n == 0 {
        Seq::empty()
    } else {
        pixels((n - 1) as nat) + pixel(((n - 1) % 16) as int, ((n - 1) / 16) as int)
    }
}

pub fn tray_icon() -> (data: Vec<u8>)
    ensures
        data@ == pixels(256),
{
    let mut data: Vec<u8> = Vec::new();
    let mut n: usize = 0;
    assert(data@ =~= pixels(0));
    while n < 256
        invariant
            n <= 256,
            data@ == pixels(n as nat),
        decreases 256 - n,
    {
        let ghost before = data@;
        let x: usize = n % ICON_SIZE;
        let y: usize = n / ICON_SIZE;
        if 3 <= x && x < 13 && 3 <= y && y < 13 {
            data.push(255);
            data.push(42);
            data.push(157);
            data.push(143);
        } else {
            data.push(0);
            data.push(0);
            data.push(0);
            data.push(0);
        }
        assert(data@ =~= before + pixel(x as int, y as int));
        n += 1;
    }
    data
}

} // verus!
