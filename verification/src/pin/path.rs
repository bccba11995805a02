//! Paths that pin accepts, and names in the recovery store.

use vstd::prelude::*;

use crate::error;
use crate::error::{protocol, ErrorModel, Outcome, Result};
use crate::text;
use crate::text::{split, text_bytes, text_same};

verus! {

/// Parts of a path that neither leave the root nor stand for it.
pub open spec fn stays_below(parts: Seq<Seq<char>>) -> bool {
    parts[0] != ""@ && parts[0] != "."@ && forall|i: int|
        0 <= i < parts.len() ==> #[trigger] parts[i] != ".."@
}

/// Paths that are inside a `.git` directory.
pub open spec fn excluded_parts(parts: Seq<Seq<char>>) -> bool {
    exists|i: int| 0 <= i < parts.len() - 1 && #[trigger] parts[i] == ".git"@
}

pub open spec fn excluded_path(rel: Seq<char>) -> bool {
    excluded_parts(text::pieces(rel, '/'))
}

pub open spec fn touches_recovery(parts: Seq<Seq<char>>) -> bool {
    exists|i: int| 0 <= i < parts.len() && #[trigger] parts[i] == ".clix-recovery"@
}

/// A path that pin may read or write.
pub open spec fn pin_path(rel: Seq<char>) -> bool {
    let parts = text::pieces(rel, '/');
    stays_below(parts) && !touches_recovery(parts) && !excluded_parts(parts)
}

pub open spec fn path_outcome(rel: Seq<char>) -> Outcome<()> {
    if pin_path(rel) {
        Ok(())
    } else {
        Err(ErrorModel::Protocol("invalid pin path"@))
    }
}

/// Whether a text is among the first `n` of a list.
fn has_text(list: &Vec<String>, n: usize, wanted: &str) -> (yes: bool)
    requires
        n <= list.len(),
    ensures
        yes == exists|i: int| 0 <= i < n && #[trigger] list.deep_view()[i] == wanted@,
{
    let ghost view = list.deep_view();
    let mut i: usize = 0;
    while i < n
        invariant
            i <= n <= list.len(),
            view == list.deep_view(),
            forall|j: int| 0 <= j < i ==> #[trigger] view[j] != wanted@,
        decreases n - i,
    {
        assert(view[i as int] == list@[i as int]@);
        if text_same(&list[i], wanted) {
            return true;
        }
        i += 1;
    }
    false
}

/// Paths pin never syncs or accepts, beyond `.clix-recovery`. Hooks in a `.git`
/// directory run on ordinary git operations, so a peer must not be able to place
/// one through pin, and nothing of a local repository is replicated.
pub fn excluded(rel: &str) -> (yes: bool)
    ensures
        yes == excluded_path(rel@),
{
    proof {
        crate::text::lemma_pieces_some(rel@, '/');
    }
    let parts = split(rel, '/');
    assert(parts.len() == parts.deep_view().len());
    has_text(&parts, parts.len() - 1, ".git")
}

pub fn valid_path(rel: &str) -> (result: Result<()>)
    ensures
        error::outcome(result) == path_outcome(rel@),
{
    proof {
        crate::text::lemma_pieces_some(rel@, '/');
        reveal_strlit("");
    }
    let parts = split(rel, '/');
    let ghost view = parts.deep_view();
    assert(parts.len() == view.len());
    assert(view[0] == parts@[0]@);
    let below = !text_same(&parts[0], "") && !text_same(&parts[0], ".") && !has_text(
        &parts,
        parts.len(),
        "..",
    );
    if below && !has_text(&parts, parts.len(), ".clix-recovery") && !has_text(
        &parts,
        parts.len() - 1,
        ".git",
    ) {
        Ok(())
    } else {
        Err(protocol("invalid pin path"))
    }
}

/// A single name: what follows it, if anything, adds no part of its own.
pub open spec fn lone_name(parts: Seq<Seq<char>>) -> bool {
    parts[0] != ""@ && parts[0] != "."@ && parts[0] != ".."@ && forall|i: int|
        1 <= i < parts.len() ==> (#[trigger] parts[i] == ""@ || parts[i] == "."@)
}

pub open spec fn recovery_name(name: Seq<char>) -> bool {
    text::byte_len(name) <= 200 && name != ".lock"@ && lone_name(text::pieces(name, '/'))
}

pub open spec fn recovery_name_outcome(name: Seq<char>) -> Outcome<()> {
    if recovery_name(name) {
        Ok(())
    } else {
        Err(ErrorModel::Protocol("invalid recovery ID"@))
    }
}

fn is_lone_name(parts: &Vec<String>) -> (yes: bool)
    requires
        parts.len() > 0,
    ensures
        yes == lone_name(parts.deep_view()),
{
    let ghost view = parts.deep_view();
    assert(view[0] == parts@[0]@);
    if text_same(&parts[0], "") || text_same(&parts[0], ".") || text_same(&parts[0], "..") {
        return false;
    }
    let mut i: usize = 1;
    while i < parts.len()
        invariant
            1 <= i <= parts.len(),
            view == parts.deep_view(),
            view[0] != ""@ && view[0] != "."@ && view[0] != ".."@,
            forall|j: int| 1 <= j < i ==> (#[trigger] view[j] == ""@ || view[j] == "."@),
        decreases parts.len() - i,
    {
        assert(view[i as int] == parts@[i as int]@);
        if !text_same(&parts[i], "") && !text_same(&parts[i], ".") {
            return false;
        }
        i += 1;
    }
    true
}

pub fn valid_recovery_name(name: &str) -> (result: Result<()>)
    ensures
        error::outcome(result) == recovery_name_outcome(name@),
{
    proof {
        crate::text::lemma_pieces_some(name@, '/');
    }
    let parts = split(name, '/');
    assert(parts.len() == parts.deep_view().len());
    if text_bytes(name) <= 200 && !text_same(name, ".lock") && is_lone_name(&parts) {
        Ok(())
    } else {
        Err(protocol("invalid recovery ID"))
    }
}

} // verus!
