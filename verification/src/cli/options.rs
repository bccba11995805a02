//! Options and words of a command line.

use vstd::prelude::*;

use crate::data::Data;
use crate::error;
use crate::error::{usage, ClixError, ErrorModel, Outcome, Result};
use crate::scan;
use crate::scan::after_prefix;
use crate::text::{cat3, chars_of, owned, text_same};

verus! {

/// How often an option may be given and whether it takes a value.
#[derive(Debug, Clone, Copy, PartialEq, Eq, Structural)]
pub enum Arity {
    Flag,
    Single,
    Many,
}

/// Which options belong to a command.
#[derive(Debug, Clone, Copy, PartialEq, Eq, Structural)]
pub enum Context {
    Plain,
    Pair,
    Grant,
    Output,
    Prune,
    Token,
    List,
}

/// What a command knows of an option. Every command takes `--no-wait`.
pub open spec fn arity(context: Context, name: Seq<char>) -> Option<Arity> {
    if name == "no-wait"@ {
        Some(Arity::Flag)
    } else {
        match context {
            Context::Plain => None,
            Context::Pair => if name == "name"@ {
                Some(Arity::Single)
            } else {
                None
            },
            Context::Grant => if name == "all"@ || name == "server"@ || name == "once"@ || name
                == "weekdays"@ {
                Some(Arity::Flag)
            } else if name == "for"@ || name == "until"@ || name == "from"@ || name == "to"@ {
                Some(Arity::Single)
            } else if name == "allow"@ || name == "days"@ || name == "dates"@ || name == "only"@ {
                Some(Arity::Many)
            } else {
                None
            },
            Context::Output => if name == "stderr"@ {
                Some(Arity::Flag)
            } else {
                None
            },
            Context::Prune => if name == "keep-output-jobs"@ {
                Some(Arity::Single)
            } else {
                None
            },
            Context::Token => if name == "token"@ {
                Some(Arity::Single)
            } else {
                None
            },
            Context::List => if name == "after"@ {
                Some(Arity::Single)
            } else {
                None
            },
        }
    }
}

fn arity_of(context: Context, name: &str) -> (known: Option<Arity>)
    ensures
        known == arity(context, name@),
{
    if text_same(name, "no-wait") {
        return Some(Arity::Flag);
    }
    match context {
        Context::Plain => None,
        Context::Pair => if text_same(name, "name") {
            Some(Arity::Single)
        } else {
            None
        },
        Context::Grant => if text_same(name, "all") || text_same(name, "server") || text_same(
            name,
            "once",
        ) || text_same(name, "weekdays") {
            Some(Arity::Flag)
        } else if text_same(name, "for") || text_same(name, "until") || text_same(name, "from")
            || text_same(name, "to") {
            Some(Arity::Single)
        } else if text_same(name, "allow") || text_same(name, "days") || text_same(name, "dates")
            || text_same(name, "only") {
            Some(Arity::Many)
        } else {
            None
        },
        Context::Output => if text_same(name, "stderr") {
            Some(Arity::Flag)
        } else {
            None
        },
        Context::Prune => if text_same(name, "keep-output-jobs") {
            Some(Arity::Single)
        } else {
            None
        },
        Context::Token => if text_same(name, "token") {
            Some(Arity::Single)
        } else {
            None
        },
        Context::List => if text_same(name, "after") {
            Some(Arity::Single)
        } else {
            None
        },
    }
}

/// The options that were given, in order, and the other words.
#[derive(Debug)]
pub struct Matched {
    pub options: Vec<(String, String)>,
    pub words: Vec<String>,
}

#[verifier::ext_equal]
pub struct MatchedModel {
    pub options: Seq<(Seq<char>, Seq<char>)>,
    pub words: Seq<Seq<char>>,
}

impl View for Matched {
    type V = MatchedModel;

    open spec fn view(&self) -> MatchedModel {
        MatchedModel { options: self.options.deep_view(), words: self.words.deep_view() }
    }
}

impl DeepView for Matched {
    type V = MatchedModel;

    open spec fn deep_view(&self) -> MatchedModel {
        self@
    }
}

/// Whether an option was given.
pub open spec fn given(options: Seq<(Seq<char>, Seq<char>)>, name: Seq<char>) -> bool {
    exists|i: int| 0 <= i < options.len() && (#[trigger] options[i]).0 == name
}

/// The values that an option was given, in order.
pub open spec fn values(options: Seq<(Seq<char>, Seq<char>)>, name: Seq<char>) -> Seq<Seq<char>>
    decreases options.len(),
{
    if options.len() == 0 {
        Seq::empty()
    } else if options.last().0 == name {
        values(options.drop_last(), name).push(options.last().1)
    } else {
        values(options.drop_last(), name)
    }
}

/// The value of an option that is given at most once.
pub open spec fn value(options: Seq<(Seq<char>, Seq<char>)>, name: Seq<char>) -> Option<Seq<char>> {
    if values(options, name).len() == 0 {
        None
    } else {
        Some(values(options, name)[0])
    }
}

pub fn is_given(options: &Vec<(String, String)>, name: &str) -> (yes: bool)
    ensures
        yes == given(options.deep_view(), name@),
{
    let ghost view = options.deep_view();
    let mut i: usize = 0;
    while i < options.len()
        invariant
            i <= options.len(),
            view == options.deep_view(),
            forall|j: int| 0 <= j < i ==> (#[trigger] view[j]).0 != name@,
        decreases options.len() - i,
    {
        assert(view[i as int] == options@[i as int].deep_view());
        if text_same(&options[i].0, name) {
            assert(view[i as int].0 == name@);
            return true;
        }
        i += 1;
    }
    false
}

pub fn values_of(options: &Vec<(String, String)>, name: &str) -> (found: Vec<String>)
    ensures
        found.deep_view() == values(options.deep_view(), name@),
{
    let ghost view = options.deep_view();
    let mut found: Vec<String> = Vec::new();
    let mut i: usize = 0;
    assert(view.take(0) =~= Seq::<(Seq<char>, Seq<char>)>::empty());
    assert(found.deep_view() =~= Seq::<Seq<char>>::empty());
    while i < options.len()
        invariant
            i <= options.len(),
            view == options.deep_view(),
            found.deep_view() == values(view.take(i as int), name@),
        decreases options.len() - i,
    {
        let ghost before = found.deep_view();
        assert(view[i as int] == options@[i as int].deep_view());
        assert(view.take(i + 1).drop_last() =~= view.take(i as int));
        assert(view.take(i + 1).last() == view[i as int]);
        if text_same(&options[i].0, name) {
            found.push(options[i].1.dup());
            assert(found.deep_view() =~= before.push(view[i as int].1));
        }
        i += 1;
    }
    assert(view.take(i as int) =~= view);
    found
}

pub fn value_of(options: &Vec<(String, String)>, name: &str) -> (found: Option<String>)
    ensures
        found.deep_view() == value(options.deep_view(), name@),
{
    let all = values_of(options, name);
    if all.len() == 0 {
        None
    } else {
        assert(all.deep_view()[0] == all@[0]@);
        Some(all[0].dup())
    }
}

pub open spec fn unexpected(token: Seq<char>) -> ErrorModel {
    ErrorModel::Usage("unexpected argument '"@ + token + "'"@)
}

pub open spec fn repeated(name: Seq<char>) -> ErrorModel {
    ErrorModel::Usage("--"@ + name + " cannot be used more than once"@)
}

pub open spec fn valueless(name: Seq<char>) -> ErrorModel {
    ErrorModel::Usage("--"@ + name + " needs a value"@)
}

pub open spec fn overvalued(name: Seq<char>) -> ErrorModel {
    ErrorModel::Usage("--"@ + name + " takes no value"@)
}

/// What `--help` says.
pub open spec fn help_text() -> Seq<char> {
    "usage: clix [--no-wait] <command>\n\ncommands: add pair grants remove log job storage pin pending allow deny request daemon install status\n\nNamed machine: clix [--no-wait] -- BODY TOOL ARG…\nUse this form when BODY matches an owner command; tool arguments are preserved."@
}

pub fn help() -> (error: ClixError)
    ensures
        error@ == ErrorModel::Usage(help_text()),
{
    usage(
        "usage: clix [--no-wait] <command>\n\ncommands: add pair grants remove log job storage pin pending allow deny request daemon install status\n\nNamed machine: clix [--no-wait] -- BODY TOOL ARG…\nUse this form when BODY matches an owner command; tool arguments are preserved.",
    )
}

/// A token that stands where an option would.
pub open spec fn dashed(token: Seq<char>) -> bool {
    token.len() > 1 && token[0] == '-'
}

pub fn is_dashed(token: &str) -> (yes: bool)
    ensures
        yes == dashed(token@),
{
    let chars = chars_of(token);
    chars.len() > 1 && chars[0] == '-'
}

pub fn unexpected_token(token: &str) -> (error: ClixError)
    ensures
        error@ == unexpected(token@),
{
    ClixError::Usage(cat3("unexpected argument '", token, "'"))
}

/// Where the first `=` stands, or the length.
pub open spec fn equals_at(s: Seq<char>) -> int
    decreases s.len(),
{
    if s.len() == 0 || s[0] == '=' {
        0
    } else {
        1 + equals_at(s.skip(1))
    }
}

/// The name and the value of an option written with `=`.
pub open spec fn option_parts(body: Seq<char>) -> (Seq<char>, Option<Seq<char>>) {
    let at = equals_at(body);
    if at == body.len() {
        (body, None)
    } else {
        (body.take(at), Some(body.skip(at + 1)))
    }
}

proof fn lemma_equals_at(s: Seq<char>, n: int)
    requires
        0 <= n <= s.len(),
        forall|j: int| 0 <= j < n ==> #[trigger] s[j] != '=',
        n == s.len() || s[n] == '=',
    ensures
        equals_at(s) == n,
    decreases n,
{
    if n > 0 {
        assert forall|j: int| 0 <= j < n - 1 implies #[trigger] s.skip(1)[j] != '=' by {
            assert(s.skip(1)[j] == s[j + 1]);
        }
        lemma_equals_at(s.skip(1), n - 1);
    }
}

fn parts_of(body: &str) -> (parts: (String, Option<String>))
    ensures
        (parts.0@, parts.1.deep_view()) == option_parts(body@),
{
    let chars = chars_of(body);
    let mut at: usize = 0;
    while at < chars.len() && chars[at] != '='
        invariant
            at <= chars.len(),
            forall|j: int| 0 <= j < at ==> #[trigger] chars@[j] != '=',
        decreases chars.len() - at,
    {
        at += 1;
    }
    proof {
        lemma_equals_at(chars@, at as int);
    }
    if at == chars.len() {
        (owned(body), None)
    } else {
        let name = crate::scan::text_of(&chars, 0, at);
        let given = crate::scan::text_of(&chars, at + 1, chars.len());
        assert(name@ =~= body@.take(at as int));
        assert(given@ =~= body@.skip(at + 1));
        (name, Some(given))
    }
}

/// The tokens from `i` on, read with a command's options.
pub open spec fn scanned(
    context: Context,
    tokens: Seq<Seq<char>>,
    i: int,
    options: Seq<(Seq<char>, Seq<char>)>,
    words: Seq<Seq<char>>,
) -> Outcome<MatchedModel>
    decreases tokens.len() - i,
{
    if i >= tokens.len() {
        Ok(MatchedModel { options, words })
    } else if tokens[i] == "--"@ {
        Ok(MatchedModel { options, words: words + tokens.skip(i + 1) })
    } else if scan::begins(tokens[i], "--"@) {
        let (name, inline) = option_parts(tokens[i].skip(2));
        if name == "help"@ && inline is None {
            Err(ErrorModel::Usage(help_text()))
        } else {
            match arity(context, name) {
                None => Err(unexpected(tokens[i])),
                Some(a) => if a != Arity::Many && given(options, name) {
                    Err(repeated(name))
                } else if a == Arity::Flag {
                    if inline is Some {
                        Err(overvalued(name))
                    } else {
                        scanned(context, tokens, i + 1, options.push((name, ""@)), words)
                    }
                } else if inline is Some {
                    scanned(context, tokens, i + 1, options.push((name, inline->0)), words)
                } else if i + 1 < tokens.len() && !dashed(tokens[i + 1]) {
                    scanned(context, tokens, i + 2, options.push((name, tokens[i + 1])), words)
                } else {
                    Err(valueless(name))
                },
            }
        }
    } else if tokens[i] == "-h"@ {
        Err(ErrorModel::Usage(help_text()))
    } else if dashed(tokens[i]) {
        Err(unexpected(tokens[i]))
    } else {
        scanned(context, tokens, i + 1, options, words.push(tokens[i]))
    }
}

/// A command's tokens, from `from` on.
pub open spec fn matched(context: Context, tokens: Seq<Seq<char>>, from: int) -> Outcome<
    MatchedModel,
> {
    scanned(context, tokens, from, Seq::empty(), Seq::empty())
}

/// Split a command's tokens into options and words.
pub fn match_options(context: Context, tokens: &Vec<String>, from: usize) -> (result: Result<
    Matched,
>)
    requires
        from <= tokens.len(),
    ensures
        error::outcome(result) == matched(context, tokens.deep_view(), from as int),
{
    let ghost view = tokens.deep_view();
    let ghost goal = matched(context, view, from as int);
    let mut options: Vec<(String, String)> = Vec::new();
    let mut words: Vec<String> = Vec::new();
    let mut i: usize = from;
    assert(options.deep_view() =~= Seq::<(Seq<char>, Seq<char>)>::empty());
    assert(words.deep_view() =~= Seq::<Seq<char>>::empty());
    proof {
        reveal_strlit("--");
    }
    while i < tokens.len()
        invariant
            i <= tokens.len(),
            view == tokens.deep_view(),
            "--"@.len() == 2,
            goal == matched(context, view, from as int),
            goal == scanned(context, view, i as int, options.deep_view(), words.deep_view()),
        decreases tokens.len() - i,
    {
        let token = &tokens[i];
        let ghost options_before = options.deep_view();
        let ghost words_before = words.deep_view();
        assert(view[i as int] == tokens@[i as int]@);
        if text_same(token, "--") {
            let mut k: usize = i + 1;
            assert(view.subrange(i + 1, i + 1) =~= Seq::<Seq<char>>::empty());
            assert(words.deep_view() =~= words_before + view.subrange(i + 1, k as int));
            while k < tokens.len()
                invariant
                    i < k <= tokens.len(),
                    view == tokens.deep_view(),
                    words.deep_view() == words_before + view.subrange(i + 1, k as int),
                decreases tokens.len() - k,
            {
                let ghost so_far = words.deep_view();
                assert(view[k as int] == tokens@[k as int]@);
                words.push(tokens[k].dup());
                assert(words.deep_view() =~= so_far.push(view[k as int]));
                k += 1;
                assert(words.deep_view() =~= words_before + view.subrange(i + 1, k as int));
            }
            assert(view.subrange(i + 1, k as int) =~= view.skip(i + 1));
            return Ok(Matched { options, words });
        }
        match after_prefix(token, "--") {
            Some(body) => {
                let (name, inline) = parts_of(&body);
                if text_same(&name, "help") && inline.is_none() {
                    return Err(help());
                }
                let known = match arity_of(context, &name) {
                    Some(known) => known,
                    None => return Err(unexpected_token(token)),
                };
                if known != Arity::Many && is_given(&options, &name) {
                    return Err(
                        ClixError::Usage(cat3("--", &name, " cannot be used more than once")),
                    );
                }
                if known == Arity::Flag {
                    if inline.is_some() {
                        return Err(ClixError::Usage(cat3("--", &name, " takes no value")));
                    }
                    let ghost pair = (name@, ""@);
                    options.push((name, owned("")));
                    assert(options.deep_view() =~= options_before.push(pair));
                    i += 1;
                } else {
                    match inline {
                        Some(text) => {
                            let ghost pair = (name@, text@);
                            options.push((name, text));
                            assert(options.deep_view() =~= options_before.push(pair));
                            i += 1;
                        },
                        None => {
                            if i + 1 < tokens.len() && !is_dashed(&tokens[i + 1]) {
                                assert(view[i + 1] == tokens@[i + 1]@);
                                let ghost pair = (name@, view[i + 1]);
                                options.push((name, tokens[i + 1].dup()));
                                assert(options.deep_view() =~= options_before.push(pair));
                                i += 2;
                            } else {
                                if i + 1 < tokens.len() {
                                    assert(view[i + 1] == tokens@[i + 1]@);
                                }
                                return Err(ClixError::Usage(cat3("--", &name, " needs a value")));
                            }
                        },
                    }
                }
            },
            None => {
                if text_same(token, "-h") {
                    return Err(help());
                }
                if is_dashed(token) {
                    return Err(unexpected_token(token));
                }
                words.push(token.dup());
                assert(words.deep_view() =~= words_before.push(view[i as int]));
                i += 1;
            },
        }
    }
    Ok(Matched { options, words })
}

/// The first word from `i` on, past `--no-wait`.
pub open spec fn headed(tokens: Seq<Seq<char>>, i: int, no_wait: bool) -> Outcome<
    (bool, Option<usize>),
>
    decreases tokens.len() - i,
{
    if i >= tokens.len() {
        Ok((no_wait, None))
    } else if tokens[i] == "--no-wait"@ {
        if no_wait {
            Err(repeated("no-wait"@))
        } else {
            headed(tokens, i + 1, true)
        }
    } else if tokens[i] == "--help"@ || tokens[i] == "-h"@ {
        Err(ErrorModel::Usage(help_text()))
    } else if dashed(tokens[i]) {
        Err(unexpected(tokens[i]))
    } else {
        Ok((no_wait, Some(i as usize)))
    }
}

/// Find the word that names a command.
pub fn find_head(tokens: &Vec<String>, from: usize) -> (result: Result<(bool, Option<usize>)>)
    requires
        from <= tokens.len(),
    ensures
        error::outcome(result) == headed(tokens.deep_view(), from as int, false),
        result matches Ok((_, Some(at))) ==> from <= at < tokens.len(),
{
    let ghost view = tokens.deep_view();
    let mut no_wait = false;
    let mut i: usize = from;
    while i < tokens.len()
        invariant
            from <= i <= tokens.len(),
            view == tokens.deep_view(),
            headed(view, from as int, false) == headed(view, i as int, no_wait),
        decreases tokens.len() - i,
    {
        let token = &tokens[i];
        assert(view[i as int] == tokens@[i as int]@);
        if text_same(token, "--no-wait") {
            if no_wait {
                return Err(ClixError::Usage(cat3("--", "no-wait", " cannot be used more than once")));
            }
            no_wait = true;
        } else if text_same(token, "--help") || text_same(token, "-h") {
            return Err(help());
        } else if is_dashed(token) {
            return Err(unexpected_token(token));
        } else {
            return Ok((no_wait, Some(i)));
        }
        i += 1;
    }
    Ok((no_wait, None))
}

} // verus!
