//! Paths as text: their parts, their last name, and when two are the same.

use vstd::prelude::*;
use vstd::string::*;

use crate::data::Data;
use crate::error;
use crate::error::{ClixError, ErrorModel, Outcome, Result};
use crate::search;
use crate::text;
use crate::text::{cat3, chars_of, owned, split, text_same};

verus! {

/// A part that names something: neither empty nor the directory itself.
pub open spec fn named_part() -> spec_fn(Seq<char>) -> bool {
    |part: Seq<char>| part != ""@ && part != "."@
}

/// The named parts of a path.
pub open spec fn parts(path: Seq<char>) -> Seq<Seq<char>> {
    search::kept(text::pieces(path, '/'), named_part())
}

pub open spec fn rooted(path: Seq<char>) -> bool {
    path.len() > 0 && path[0] == '/'
}

/// Two absolute paths with the same parts.
pub open spec fn same_place(a: Seq<char>, b: Seq<char>) -> bool {
    rooted(a) == rooted(b) && parts(a) == parts(b)
}

/// The last named part; the whole text where that is missing or leads upwards.
pub open spec fn last_name(path: Seq<char>) -> Seq<char> {
    let all = parts(path);
    if all.len() == 0 || all.last() == ".."@ {
        path
    } else {
        all.last()
    }
}

pub fn path_parts(path: &str) -> (list: Vec<String>)
    ensures
        list.deep_view() == parts(path@),
{
    let all = split(path, '/');
    let ghost view = all.deep_view();
    let mut list: Vec<String> = Vec::new();
    let mut i: usize = 0;
    assert(view.take(0) =~= Seq::<Seq<char>>::empty());
    assert(list.deep_view() =~= Seq::<Seq<char>>::empty());
    while i < all.len()
        invariant
            i <= all.len(),
            view == all.deep_view(),
            list.deep_view() == search::kept(view.take(i as int), named_part()),
        decreases all.len() - i,
    {
        let ghost before = list.deep_view();
        assert(view[i as int] == all@[i as int]@);
        proof {
            search::lemma_kept_step(view, named_part(), i as int);
        }
        if !text_same(&all[i], "") && !text_same(&all[i], ".") {
            list.push(all[i].dup());
            assert(list.deep_view() =~= before.push(view[i as int]));
        }
        i += 1;
    }
    assert(view.take(i as int) =~= view);
    list
}

pub fn is_rooted(path: &str) -> (yes: bool)
    ensures
        yes == rooted(path@),
{
    let chars = chars_of(path);
    chars.len() > 0 && chars[0] == '/'
}

pub fn is_same_place(a: &str, b: &str) -> (yes: bool)
    ensures
        yes == same_place(a@, b@),
{
    is_rooted(a) == is_rooted(b) && path_parts(a).same(&path_parts(b))
}

/// The name a tool goes by.
pub fn tool_key(name: &str) -> (key: String)
    ensures
        key@ == last_name(name@),
{
    let all = path_parts(name);
    let ghost view = all.deep_view();
    if all.len() == 0 {
        return owned(name);
    }
    let last = &all[all.len() - 1];
    assert(view.last() == last@);
    if text_same(last, "..") {
        return owned(name);
    }
    last.dup()
}

/// A directory and a name below it.
pub open spec fn joined_path(dir: Seq<char>, name: Seq<char>) -> Seq<char> {
    if rooted(name) || dir.len() == 0 {
        name
    } else if dir.last() == '/' {
        dir + name
    } else {
        dir + "/"@ + name
    }
}

pub fn join_path(dir: &str, name: &str) -> (path: String)
    ensures
        path@ == joined_path(dir@, name@),
{
    let chars = chars_of(dir);
    if is_rooted(name) || chars.len() == 0 {
        return owned(name);
    }
    if chars[chars.len() - 1] == '/' {
        return crate::text::cat2(dir, name);
    }
    cat3(dir, "/", name)
}

/// A value that is set to something.
pub open spec fn set_to(value: Option<Seq<char>>) -> bool {
    value is Some && value->0.len() > 0
}

/// The state directory: `CLIX_HOME` where it is set, else the project's own.
pub open spec fn state_dir_outcome(home: Option<Seq<char>>, project: Option<Seq<char>>) -> Outcome<
    Seq<char>,
> {
    if set_to(home) {
        Ok(home->0)
    } else {
        match project {
            Some(dir) => Ok(dir),
            None => Err(ErrorModel::Io("cannot determine clix state directory"@)),
        }
    }
}

pub fn state_dir(home: Option<String>, project: Option<String>) -> (dir: Result<String>)
    ensures
        error::outcome(dir) == state_dir_outcome(home.deep_view(), project.deep_view()),
{
    if let Some(dir) = home {
        if !dir.as_str().is_empty() {
            return Ok(dir);
        }
    }
    match project {
        Some(dir) => Ok(dir),
        None => Err(ClixError::Io(owned("cannot determine clix state directory"))),
    }
}

/// `state.json` in the state directory.
pub fn state_file(home: Option<String>, project: Option<String>) -> (path: Result<String>)
    ensures
        error::outcome(path) == match state_dir_outcome(home.deep_view(), project.deep_view()) {
            Ok(dir) => Ok::<Seq<char>, ErrorModel>(joined_path(dir, "state.json"@)),
            Err(e) => Err::<Seq<char>, ErrorModel>(e),
        },
{
    match state_dir(home, project) {
        Ok(dir) => Ok(join_path(&dir, "state.json")),
        Err(e) => Err(e),
    }
}

/// The owner socket: `CLIX_SOCK`, else `clix.sock` in `XDG_RUNTIME_DIR`.
pub fn socket_path(sock: Option<String>, runtime_dir: Option<String>) -> (path: Result<String>)
    ensures
        error::outcome(path) == if set_to(sock.deep_view()) {
            Ok::<Seq<char>, ErrorModel>(sock.deep_view()->0)
        } else if set_to(runtime_dir.deep_view()) {
            Ok::<Seq<char>, ErrorModel>(joined_path(runtime_dir.deep_view()->0, "clix.sock"@))
        } else {
            Err::<Seq<char>, ErrorModel>(
                ErrorModel::Io("XDG_RUNTIME_DIR is not set (or set CLIX_SOCK)"@),
            )
        },
{
    if let Some(path) = sock {
        if !path.as_str().is_empty() {
            return Ok(path);
        }
    }
    if let Some(dir) = runtime_dir {
        if !dir.as_str().is_empty() {
            return Ok(join_path(&dir, "clix.sock"));
        }
    }
    Err(ClixError::Io(owned("XDG_RUNTIME_DIR is not set (or set CLIX_SOCK)")))
}

} // verus!
