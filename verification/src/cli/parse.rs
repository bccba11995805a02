//! From the words of a command line to a command.

use vstd::prelude::*;

use crate::cli::command::{
    Cmd, CmdModel, JobCommand, JobCommandModel, PinCommand, PinCommandModel, RecoveryCommand,
    RecoveryCommandModel, StorageCommand, StorageCommandModel,
};
use crate::cli::options;
use crate::cli::options::{
    find_head, is_given, match_options, unexpected_token, value_of, values_of, Context, Matched,
    MatchedModel,
};
use crate::cli::values;
use crate::cli::values::{parse_ampm, parse_dates, parse_duration, resolve_until, validate_days};
use crate::data::Data;
use crate::error;
use crate::error::{usage, ClixError, ErrorModel, Outcome, Result};
use crate::pair;
use crate::pair::validate_name;
use crate::scan;
use crate::scan::{after_prefix, parse_number};
use crate::schedule::{local_moments, Moments};
use crate::search;
use crate::text;
use crate::text::{cat3, cat5, owned, split, text_same};
use crate::types::TimestampModel;

verus! {

/// What the options of `add` and `allow` narrow a grant to. `until` still has
/// to be looked up in the local calendar: its text, and minutes since midnight.
#[derive(Debug)]
pub struct GrantNarrow {
    pub allow: Vec<String>,
    pub once: bool,
    pub for_dur: Option<u64>,
    pub until: Option<(String, u32)>,
    pub days: Vec<String>,
    pub dates: Vec<u8>,
    pub from: Option<String>,
    pub to: Option<String>,
    pub weekdays: bool,
}

#[verifier::ext_equal]
pub struct GrantNarrowModel {
    pub allow: Seq<Seq<char>>,
    pub once: bool,
    pub for_dur: Option<u64>,
    pub until: Option<(Seq<char>, u32)>,
    pub days: Seq<Seq<char>>,
    pub dates: Seq<u8>,
    pub from: Option<Seq<char>>,
    pub to: Option<Seq<char>>,
    pub weekdays: bool,
}

impl View for GrantNarrow {
    type V = GrantNarrowModel;

    open spec fn view(&self) -> GrantNarrowModel {
        GrantNarrowModel {
            allow: self.allow.deep_view(),
            once: self.once,
            for_dur: self.for_dur,
            until: self.until.deep_view(),
            days: self.days.deep_view(),
            dates: self.dates@,
            from: self.from.deep_view(),
            to: self.to.deep_view(),
            weekdays: self.weekdays,
        }
    }
}

impl DeepView for GrantNarrow {
    type V = GrantNarrowModel;

    open spec fn deep_view(&self) -> GrantNarrowModel {
        self@
    }
}

/// Values that may each list several, separated by commas.
pub open spec fn spread(listed: Seq<Seq<char>>) -> Seq<Seq<char>>
    decreases listed.len(),
{
    if listed.len() == 0 {
        Seq::empty()
    } else {
        spread(listed.drop_last()) + text::pieces(listed.last(), ',')
    }
}

fn spread_out(listed: &Vec<String>) -> (items: Vec<String>)
    ensures
        items.deep_view() == spread(listed.deep_view()),
{
    let ghost view = listed.deep_view();
    let mut items: Vec<String> = Vec::new();
    let mut i: usize = 0;
    assert(view.take(0) =~= Seq::<Seq<char>>::empty());
    assert(items.deep_view() =~= Seq::<Seq<char>>::empty());
    while i < listed.len()
        invariant
            i <= listed.len(),
            view == listed.deep_view(),
            items.deep_view() == spread(view.take(i as int)),
        decreases listed.len() - i,
    {
        assert(view[i as int] == listed@[i as int]@);
        assert(view.take(i + 1).drop_last() =~= view.take(i as int));
        let parts = split(&listed[i], ',');
        let ghost before = items.deep_view();
        let ghost found = parts.deep_view();
        let mut k: usize = 0;
        assert(items.deep_view() =~= before + found.take(0));
        while k < parts.len()
            invariant
                k <= parts.len(),
                found == parts.deep_view(),
                items.deep_view() == before + found.take(k as int),
            decreases parts.len() - k,
        {
            let ghost so_far = items.deep_view();
            assert(found[k as int] == parts@[k as int]@);
            items.push(parts[k].dup());
            assert(items.deep_view() =~= so_far.push(found[k as int]));
            k += 1;
            assert(items.deep_view() =~= before + found.take(k as int));
        }
        assert(found.take(k as int) =~= found);
        i += 1;
    }
    assert(view.take(i as int) =~= view);
    items
}

pub open spec fn nonempty() -> spec_fn(Seq<char>) -> bool {
    |s: Seq<char>| s.len() > 0
}

/// The arguments in one `--only` value.
pub open spec fn only_words(value: Seq<char>) -> Seq<Seq<char>> {
    search::kept(text::pieces(value, ' '), nonempty())
}

/// The argument lists that `--only` names; none means any.
pub open spec fn only_lists(options: Seq<(Seq<char>, Seq<char>)>) -> Option<Seq<Seq<Seq<char>>>> {
    let listed = options::values(options, "only"@);
    if listed.len() == 0 {
        None
    } else {
        Some(Seq::new(listed.len(), |i: int| only_words(listed[i])))
    }
}

fn words_of(value: &str) -> (words: Vec<String>)
    ensures
        words.deep_view() == only_words(value@),
{
    let parts = split(value, ' ');
    let ghost view = parts.deep_view();
    let mut words: Vec<String> = Vec::new();
    let mut i: usize = 0;
    assert(view.take(0) =~= Seq::<Seq<char>>::empty());
    assert(words.deep_view() =~= Seq::<Seq<char>>::empty());
    while i < parts.len()
        invariant
            i <= parts.len(),
            view == parts.deep_view(),
            words.deep_view() == search::kept(view.take(i as int), nonempty()),
        decreases parts.len() - i,
    {
        let ghost before = words.deep_view();
        assert(view[i as int] == parts@[i as int]@);
        proof {
            search::lemma_kept_step(view, nonempty(), i as int);
        }
        if !parts[i].as_str().is_empty() {
            words.push(parts[i].dup());
            assert(words.deep_view() =~= before.push(view[i as int]));
        }
        i += 1;
    }
    assert(view.take(i as int) =~= view);
    words
}

fn lists_of(options: &Vec<(String, String)>) -> (lists: Option<Vec<Vec<String>>>)
    ensures
        lists.deep_view() == only_lists(options.deep_view()),
{
    let listed = values_of(options, "only");
    if listed.len() == 0 {
        return None;
    }
    let ghost view = listed.deep_view();
    let mut lists: Vec<Vec<String>> = Vec::new();
    let mut i: usize = 0;
    while i < listed.len()
        invariant
            i <= listed.len(),
            view == listed.deep_view(),
            lists.len() == i,
            forall|j: int| 0 <= j < i ==> (#[trigger] lists@[j]).deep_view() == only_words(view[j]),
        decreases listed.len() - i,
    {
        assert(view[i as int] == listed@[i as int]@);
        lists.push(words_of(&listed[i]));
        i += 1;
    }
    assert(lists.deep_view() =~= Seq::new(view.len(), |j: int| only_words(view[j])));
    Some(lists)
}

/// The machines that a grant's options name.
pub open spec fn named_machines(options: Seq<(Seq<char>, Seq<char>)>) -> Seq<Seq<char>> {
    let allow = options::values(options, "allow"@);
    if options::given(options, "server"@) {
        allow.push("server"@)
    } else {
        allow
    }
}

/// What is wrong with the scope or the schedule that a grant's options ask for.
pub open spec fn grant_conflict(
    options: Seq<(Seq<char>, Seq<char>)>,
    require_scope: bool,
) -> Option<ErrorModel> {
    let scoped = named_machines(options).len() > 0;
    let days = spread(options::values(options, "days"@)).len() > 0;
    let dates = spread(options::values(options, "dates"@)).len() > 0;
    let weekdays = options::given(options, "weekdays"@);
    if options::given(options, "all"@) && scoped {
        Some(ErrorModel::Usage("use --all or --allow/--server, not both"@))
    } else if require_scope && !options::given(options, "all"@) && !scoped {
        Some(
            ErrorModel::Usage("specify --allow <machine> (repeatable), --server, or --all"@),
        )
    } else if options::given(options, "once"@) && (days || dates || weekdays) {
        Some(ErrorModel::Usage("use --once or a schedule, not both"@))
    } else if weekdays && days {
        Some(ErrorModel::Usage("use --days or --weekdays, not both"@))
    } else {
        None
    }
}

/// Options that make a grant last beyond one run.
pub open spec fn widening(options: Seq<(Seq<char>, Seq<char>)>) -> bool {
    options::value(options, "for"@) is Some || options::value(options, "until"@) is Some || spread(
        options::values(options, "days"@),
    ).len() > 0 || spread(options::values(options, "dates"@)).len() > 0 || options::given(options, "weekdays"@)
        || options::value(options, "from"@) is Some || options::value(options, "to"@) is Some
}

/// A time of day that may be missing.
pub open spec fn optional_time(text: Option<Seq<char>>) -> Outcome<Option<(Seq<char>, u32)>> {
    match text {
        None => Ok(None),
        Some(s) => match values::ampm_outcome(s) {
            Ok(minutes) => Ok(Some((s, minutes))),
            Err(e) => Err(e),
        },
    }
}

pub open spec fn optional_duration(text: Option<Seq<char>>) -> Outcome<Option<u64>> {
    match text {
        None => Ok(None),
        Some(s) => match values::duration_outcome(s) {
            Ok(secs) => Ok(Some(secs)),
            Err(e) => Err(e),
        },
    }
}

pub open spec fn narrowed(
    options: Seq<(Seq<char>, Seq<char>)>,
    default_once: bool,
    require_scope: bool,
) -> Outcome<GrantNarrowModel> {
    let days = values::days_from(spread(options::values(options, "days"@)), 0, Seq::empty());
    let dates = values::dates_from(spread(options::values(options, "dates"@)), 0, Seq::empty());
    let from = optional_time(options::value(options, "from"@));
    let to = optional_time(options::value(options, "to"@));
    let for_dur = optional_duration(options::value(options, "for"@));
    let until = optional_time(options::value(options, "until"@));
    if grant_conflict(options, require_scope) is Some {
        Err(grant_conflict(options, require_scope)->0)
    } else if days is Err {
        Err(days->Err_0)
    } else if dates is Err {
        Err(dates->Err_0)
    } else if from is Err {
        Err(from->Err_0)
    } else if to is Err {
        Err(to->Err_0)
    } else if for_dur is Err {
        Err(for_dur->Err_0)
    } else if until is Err {
        Err(until->Err_0)
    } else {
        Ok(
            GrantNarrowModel {
                allow: named_machines(options),
                once: options::given(options, "once"@) || (default_once && !widening(options)),
                for_dur: for_dur->Ok_0,
                until: until->Ok_0,
                days: days->Ok_0,
                dates: dates->Ok_0,
                from: options::value(options, "from"@),
                to: options::value(options, "to"@),
                weekdays: options::given(options, "weekdays"@),
            },
        )
    }
}

fn time_of(text: &Option<String>) -> (result: Result<Option<(String, u32)>>)
    ensures
        error::outcome(result) == optional_time(text.deep_view()),
        result matches Ok(Some((_, minutes))) ==> minutes < 1440,
{
    match text {
        None => Ok(None),
        Some(s) => match parse_ampm(s) {
            Ok(minutes) => Ok(Some((s.dup(), minutes))),
            Err(e) => Err(e),
        },
    }
}

fn duration_of(text: &Option<String>) -> (result: Result<Option<u64>>)
    ensures
        error::outcome(result) == optional_duration(text.deep_view()),
{
    match text {
        None => Ok(None),
        Some(s) => match parse_duration(s) {
            Ok(secs) => Ok(Some(secs)),
            Err(e) => Err(e),
        },
    }
}

/// What a grant's options narrow it to. A grant must name its machines; every
/// paired machine, including ones paired later, takes an explicit `--all`.
pub fn parse_grant_cli(options: &Vec<(String, String)>, default_once: bool, require_scope: bool) -> (
    result: Result<GrantNarrow>)
    ensures
        error::outcome(result) == narrowed(options.deep_view(), default_once, require_scope),
        result matches Ok(g) ==> (g.until matches Some((_, minutes)) ==> minutes < 1440),
{
    let mut allow = values_of(options, "allow");
    let ghost listed = allow.deep_view();
    if is_given(options, "server") {
        allow.push(owned("server"));
        assert(allow.deep_view() =~= listed.push("server"@));
    }
    let all = is_given(options, "all");
    if all && allow.len() > 0 {
        return Err(usage("use --all or --allow/--server, not both"));
    }
    if require_scope && !all && allow.len() == 0 {
        return Err(usage("specify --allow <machine> (repeatable), --server, or --all"));
    }
    let days = spread_out(&values_of(options, "days"));
    let dates = spread_out(&values_of(options, "dates"));
    let weekdays = is_given(options, "weekdays");
    let once = is_given(options, "once");
    if once && (days.len() > 0 || dates.len() > 0 || weekdays) {
        return Err(usage("use --once or a schedule, not both"));
    }
    if weekdays && days.len() > 0 {
        return Err(usage("use --days or --weekdays, not both"));
    }
    let for_text = value_of(options, "for");
    let until_text = value_of(options, "until");
    let from = value_of(options, "from");
    let to = value_of(options, "to");
    let wider = for_text.is_some() || until_text.is_some() || days.len() > 0 || dates.len() > 0
        || weekdays || from.is_some() || to.is_some();
    let days = match validate_days(&days) {
        Ok(days) => days,
        Err(e) => return Err(e),
    };
    let dates = match parse_dates(&dates) {
        Ok(dates) => dates,
        Err(e) => return Err(e),
    };
    if let Err(e) = time_of(&from) {
        return Err(e);
    }
    if let Err(e) = time_of(&to) {
        return Err(e);
    }
    let for_dur = match duration_of(&for_text) {
        Ok(for_dur) => for_dur,
        Err(e) => return Err(e),
    };
    let until = match time_of(&until_text) {
        Ok(until) => until,
        Err(e) => return Err(e),
    };
    Ok(
        GrantNarrow {
            allow,
            once: once || (default_once && !wider),
            for_dur,
            until,
            days,
            dates,
            from,
            to,
            weekdays,
        },
    )
}

/// A command, but for a time that still has to be looked up.
#[derive(Debug)]
pub struct Draft {
    pub cmd: Cmd,
    pub until: Option<(String, u32)>,
}

#[verifier::ext_equal]
pub struct DraftModel {
    pub cmd: CmdModel,
    pub until: Option<(Seq<char>, u32)>,
}

impl View for Draft {
    type V = DraftModel;

    open spec fn view(&self) -> DraftModel {
        DraftModel { cmd: self.cmd@, until: self.until.deep_view() }
    }
}

impl DeepView for Draft {
    type V = DraftModel;

    open spec fn deep_view(&self) -> DraftModel {
        self@
    }
}

/// A command that needs nothing more.
pub open spec fn settled(cmd: CmdModel) -> Outcome<DraftModel> {
    Ok(DraftModel { cmd, until: None })
}

/// Exactly so many words.
pub open spec fn exactly(m: MatchedModel, n: nat, shown: Seq<char>) -> Option<ErrorModel> {
    if m.words.len() < n {
        Some(ErrorModel::Usage(shown))
    } else if m.words.len() > n {
        Some(options::unexpected(m.words[n as int]))
    } else {
        None
    }
}

fn wrong_words(m: &Matched, n: usize, shown: &str) -> (error: Option<ClixError>)
    ensures
        (match error {
            Some(e) => exactly(m@, n as nat, shown@) == Some(e@),
            None => exactly(m@, n as nat, shown@) is None && m.words.len() == n,
        }),
{
    if m.words.len() < n {
        Some(usage(shown))
    } else if m.words.len() > n {
        assert(m@.words[n as int] == m.words@[n as int]@);
        Some(unexpected_token(&m.words[n]))
    } else {
        None
    }
}

fn word(m: &Matched, i: usize) -> (text: String)
    requires
        i < m.words.len(),
    ensures
        text@ == m@.words[i as int],
{
    assert(m@.words[i as int] == m.words@[i as int]@);
    m.words[i].dup()
}

pub open spec fn add_draft(tokens: Seq<Seq<char>>, from: int) -> Outcome<DraftModel> {
    match options::matched(Context::Grant, tokens, from) {
        Err(e) => Err(e),
        Ok(m) => match exactly(m, 1, "usage: clix add <tool>"@) {
            Some(e) => Err(e),
            None => match narrowed(m.options, false, true) {
                Err(e) => Err(e),
                Ok(g) => Ok(
                    DraftModel {
                        cmd: CmdModel::Add {
                            tool: m.words[0],
                            allow: g.allow,
                            once: g.once,
                            for_dur: g.for_dur,
                            until: None,
                            days: g.days,
                            dates: g.dates,
                            from: g.from,
                            to: g.to,
                            weekdays: g.weekdays,
                            args: only_lists(m.options),
                        },
                        until: g.until,
                    },
                ),
            },
        },
    }
}

fn parse_add(tokens: &Vec<String>, from: usize) -> (result: Result<Draft>)
    requires
        from <= tokens.len(),
    ensures
        error::outcome(result) == add_draft(tokens.deep_view(), from as int),
        result matches Ok(d) ==> (d.until matches Some((_, minutes)) ==> minutes < 1440),
{
    let m = match match_options(Context::Grant, tokens, from) {
        Ok(m) => m,
        Err(e) => return Err(e),
    };
    if let Some(e) = wrong_words(&m, 1, "usage: clix add <tool>") {
        return Err(e);
    }
    let g = match parse_grant_cli(&m.options, false, true) {
        Ok(g) => g,
        Err(e) => return Err(e),
    };
    let cmd = Cmd::Add {
        tool: word(&m, 0),
        allow: g.allow,
        once: g.once,
        for_dur: g.for_dur,
        until: None,
        days: g.days,
        dates: g.dates,
        from: g.from,
        to: g.to,
        weekdays: g.weekdays,
        args: lists_of(&m.options),
    };
    Ok(Draft { cmd, until: g.until })
}

pub open spec fn allow_draft(tokens: Seq<Seq<char>>, from: int) -> Outcome<DraftModel> {
    match options::matched(Context::Grant, tokens, from) {
        Err(e) => Err(e),
        Ok(m) => match exactly(m, 1, "usage: clix allow <request id>"@) {
            Some(e) => Err(e),
            None => if options::given(m.options, "only"@) {
                Err(
                    ErrorModel::Usage(
                        "an approval cannot limit arguments; use clix add <tool> --only"@,
                    ),
                )
            } else {
                match narrowed(m.options, true, false) {
                    Err(e) => Err(e),
                    Ok(g) => Ok(
                        DraftModel {
                            cmd: CmdModel::Allow {
                                request_id: m.words[0],
                                allow: g.allow,
                                once: g.once,
                                for_dur: g.for_dur,
                                until: None,
                                days: g.days,
                                dates: g.dates,
                                from: g.from,
                                to: g.to,
                                weekdays: g.weekdays,
                            },
                            until: g.until,
                        },
                    ),
                }
            },
        },
    }
}

fn parse_allow(tokens: &Vec<String>, from: usize) -> (result: Result<Draft>)
    requires
        from <= tokens.len(),
    ensures
        error::outcome(result) == allow_draft(tokens.deep_view(), from as int),
        result matches Ok(d) ==> (d.until matches Some((_, minutes)) ==> minutes < 1440),
{
    let m = match match_options(Context::Grant, tokens, from) {
        Ok(m) => m,
        Err(e) => return Err(e),
    };
    if let Some(e) = wrong_words(&m, 1, "usage: clix allow <request id>") {
        return Err(e);
    }
    if is_given(&m.options, "only") {
        return Err(usage("an approval cannot limit arguments; use clix add <tool> --only"));
    }
    let g = match parse_grant_cli(&m.options, true, false) {
        Ok(g) => g,
        Err(e) => return Err(e),
    };
    let cmd = Cmd::Allow {
        request_id: word(&m, 0),
        allow: g.allow,
        once: g.once,
        for_dur: g.for_dur,
        until: None,
        days: g.days,
        dates: g.dates,
        from: g.from,
        to: g.to,
        weekdays: g.weekdays,
    };
    Ok(Draft { cmd, until: g.until })
}

/// A command without words of its own.
pub open spec fn bare_draft(tokens: Seq<Seq<char>>, from: int, cmd: CmdModel) -> Outcome<
    DraftModel,
> {
    match options::matched(Context::Plain, tokens, from) {
        Err(e) => Err(e),
        Ok(m) => match exactly(m, 0, ""@) {
            Some(e) => Err(e),
            None => settled(cmd),
        },
    }
}

fn parse_bare(tokens: &Vec<String>, from: usize, cmd: Cmd) -> (result: Result<Draft>)
    requires
        from <= tokens.len(),
    ensures
        error::outcome(result) == bare_draft(tokens.deep_view(), from as int, cmd@),
        result matches Ok(d) ==> d.until is None,
{
    let m = match match_options(Context::Plain, tokens, from) {
        Ok(m) => m,
        Err(e) => return Err(e),
    };
    match wrong_words(&m, 0, "") {
        Some(e) => Err(e),
        None => Ok(Draft { cmd, until: None }),
    }
}

pub open spec fn pair_draft(tokens: Seq<Seq<char>>, from: int) -> Outcome<DraftModel> {
    match options::matched(Context::Pair, tokens, from) {
        Err(e) => Err(e),
        Ok(m) => if m.words.len() > 1 {
            Err(options::unexpected(m.words[1]))
        } else {
            settled(
                CmdModel::Pair {
                    phrase: if m.words.len() == 1 {
                        Some(m.words[0])
                    } else {
                        None
                    },
                    name: options::value(m.options, "name"@),
                },
            )
        },
    }
}

fn parse_pair(tokens: &Vec<String>, from: usize) -> (result: Result<Draft>)
    requires
        from <= tokens.len(),
    ensures
        error::outcome(result) == pair_draft(tokens.deep_view(), from as int),
        result matches Ok(d) ==> d.until is None,
{
    let m = match match_options(Context::Pair, tokens, from) {
        Ok(m) => m,
        Err(e) => return Err(e),
    };
    if m.words.len() > 1 {
        assert(m@.words[1] == m.words@[1]@);
        return Err(unexpected_token(&m.words[1]));
    }
    let phrase: Option<String> = if m.words.len() == 1 {
        Some(word(&m, 0))
    } else {
        None
    };
    Ok(Draft { cmd: Cmd::Pair { phrase, name: value_of(&m.options, "name") }, until: None })
}

/// A command with so many words and one context of options.
pub open spec fn worded(
    context: Context,
    tokens: Seq<Seq<char>>,
    from: int,
    n: nat,
    shown: Seq<char>,
) -> Outcome<MatchedModel> {
    match options::matched(context, tokens, from) {
        Err(e) => Err(e),
        Ok(m) => match exactly(m, n, shown) {
            Some(e) => Err(e),
            None => Ok(m),
        },
    }
}

fn match_words(context: Context, tokens: &Vec<String>, from: usize, n: usize, shown: &str) -> (
    result: Result<Matched>)
    requires
        from <= tokens.len(),
    ensures
        error::outcome(result) == worded(context, tokens.deep_view(), from as int, n as nat, shown@),
        result matches Ok(m) ==> m.words.len() == n,
{
    let m = match match_options(context, tokens, from) {
        Ok(m) => m,
        Err(e) => return Err(e),
    };
    match wrong_words(&m, n, shown) {
        Some(e) => Err(e),
        None => Ok(m),
    }
}

pub open spec fn words_draft(tokens: Seq<Seq<char>>, from: int, name: Seq<char>) -> Outcome<
    DraftModel,
> {
    if name == "remove"@ {
        match worded(Context::Plain, tokens, from, 1, "usage: clix remove <tool>"@) {
            Err(e) => Err(e),
            Ok(m) => settled(CmdModel::Remove { tool: m.words[0] }),
        }
    } else if name == "deny"@ {
        match worded(Context::Plain, tokens, from, 1, "usage: clix deny <request id>"@) {
            Err(e) => Err(e),
            Ok(m) => settled(CmdModel::Deny { request_id: m.words[0] }),
        }
    } else {
        match worded(Context::Plain, tokens, from, 2, "usage: clix request <body> <tool>"@) {
            Err(e) => Err(e),
            Ok(m) => settled(CmdModel::Request { body: m.words[0], tool: m.words[1] }),
        }
    }
}

fn parse_words(tokens: &Vec<String>, from: usize, name: &str) -> (result: Result<Draft>)
    requires
        from <= tokens.len(),
    ensures
        error::outcome(result) == words_draft(tokens.deep_view(), from as int, name@),
        result matches Ok(d) ==> d.until is None,
{
    let cmd = if text_same(name, "remove") {
        match match_words(Context::Plain, tokens, from, 1, "usage: clix remove <tool>") {
            Ok(m) => Cmd::Remove { tool: word(&m, 0) },
            Err(e) => return Err(e),
        }
    } else if text_same(name, "deny") {
        match match_words(Context::Plain, tokens, from, 1, "usage: clix deny <request id>") {
            Ok(m) => Cmd::Deny { request_id: word(&m, 0) },
            Err(e) => return Err(e),
        }
    } else {
        match match_words(Context::Plain, tokens, from, 2, "usage: clix request <body> <tool>") {
            Ok(m) => Cmd::Request { body: word(&m, 0), tool: word(&m, 1) },
            Err(e) => return Err(e),
        }
    };
    Ok(Draft { cmd, until: None })
}

pub open spec fn unknown_subcommand(name: Seq<char>) -> ErrorModel {
    ErrorModel::Usage("unrecognized subcommand '"@ + name + "'"@)
}

fn unknown_command(name: &str) -> (error: ClixError)
    ensures
        error@ == unknown_subcommand(name@),
{
    ClixError::Usage(cat3("unrecognized subcommand '", name, "'"))
}

/// The word that names a command within a group.
pub open spec fn grouped(tokens: Seq<Seq<char>>, from: int, shown: Seq<char>) -> Outcome<usize> {
    match options::headed(tokens, from, false) {
        Err(e) => Err(e),
        Ok((_, None)) => Err(ErrorModel::Usage(shown)),
        Ok((_, Some(at))) => Ok(at),
    }
}

fn find_grouped(tokens: &Vec<String>, from: usize, shown: &str) -> (result: Result<usize>)
    requires
        from <= tokens.len(),
    ensures
        error::outcome(result) == grouped(tokens.deep_view(), from as int, shown@),
        result matches Ok(at) ==> from <= at < tokens.len(),
{
    match find_head(tokens, from) {
        Err(e) => Err(e),
        Ok((_, None)) => Err(usage(shown)),
        Ok((_, Some(at))) => Ok(at),
    }
}

pub open spec fn job_draft(tokens: Seq<Seq<char>>, from: int) -> Outcome<DraftModel> {
    match grouped(tokens, from, "usage: clix job <inspect|output|retry> <job id>"@) {
        Err(e) => Err(e),
        Ok(at) => {
            let name = tokens[at as int];
            if name == "inspect"@ {
                match worded(Context::Plain, tokens, at + 1, 1, "usage: clix job inspect <job id>"@) {
                    Err(e) => Err(e),
                    Ok(m) => settled(
                        CmdModel::Job(JobCommandModel::Inspect { job_id: m.words[0] }),
                    ),
                }
            } else if name == "output"@ {
                match worded(Context::Output, tokens, at + 1, 1, "usage: clix job output <job id>"@) {
                    Err(e) => Err(e),
                    Ok(m) => settled(
                        CmdModel::Job(
                            JobCommandModel::Output {
                                job_id: m.words[0],
                                stderr: options::given(m.options, "stderr"@),
                            },
                        ),
                    ),
                }
            } else if name == "retry"@ {
                match worded(Context::Plain, tokens, at + 1, 1, "usage: clix job retry <job id>"@) {
                    Err(e) => Err(e),
                    Ok(m) => settled(
                        CmdModel::Job(JobCommandModel::Retry { job_id: m.words[0] }),
                    ),
                }
            } else {
                Err(unknown_subcommand(name))
            }
        },
    }
}

fn parse_job(tokens: &Vec<String>, from: usize) -> (result: Result<Draft>)
    requires
        from <= tokens.len(),
    ensures
        error::outcome(result) == job_draft(tokens.deep_view(), from as int),
        result matches Ok(d) ==> d.until is None,
{
    let at: usize = match find_grouped(
        tokens,
        from,
        "usage: clix job <inspect|output|retry> <job id>",
    ) {
        Ok(at) => at,
        Err(e) => return Err(e),
    };
    assert(tokens.deep_view()[at as int] == tokens@[at as int]@);
    let name = &tokens[at];
    let command = if text_same(name, "inspect") {
        match match_words(Context::Plain, tokens, at + 1, 1, "usage: clix job inspect <job id>") {
            Ok(m) => JobCommand::Inspect { job_id: word(&m, 0) },
            Err(e) => return Err(e),
        }
    } else if text_same(name, "output") {
        match match_words(Context::Output, tokens, at + 1, 1, "usage: clix job output <job id>") {
            Ok(m) => JobCommand::Output {
                job_id: word(&m, 0),
                stderr: is_given(&m.options, "stderr"),
            },
            Err(e) => return Err(e),
        }
    } else if text_same(name, "retry") {
        match match_words(Context::Plain, tokens, at + 1, 1, "usage: clix job retry <job id>") {
            Ok(m) => JobCommand::Retry { job_id: word(&m, 0) },
            Err(e) => return Err(e),
        }
    } else {
        return Err(unknown_command(name));
    };
    Ok(Draft { cmd: Cmd::Job(command), until: None })
}

pub open spec fn storage_draft(tokens: Seq<Seq<char>>, from: int) -> Outcome<DraftModel> {
    match grouped(tokens, from, "usage: clix storage <status|prune>"@) {
        Err(e) => Err(e),
        Ok(at) => {
            let name = tokens[at as int];
            if name == "status"@ {
                match worded(Context::Plain, tokens, at + 1, 0, ""@) {
                    Err(e) => Err(e),
                    Ok(_) => settled(CmdModel::Storage(StorageCommandModel::Status)),
                }
            } else if name == "prune"@ {
                match worded(Context::Prune, tokens, at + 1, 0, ""@) {
                    Err(e) => Err(e),
                    Ok(m) => match options::value(m.options, "keep-output-jobs"@) {
                        None => settled(
                            CmdModel::Storage(StorageCommandModel::Prune { keep_output_jobs: 0 }),
                        ),
                        Some(text) => match scan::bounded_number(text, usize::MAX as nat) {
                            Some(n) => settled(
                                CmdModel::Storage(
                                    StorageCommandModel::Prune { keep_output_jobs: n as usize },
                                ),
                            ),
                            None => Err(
                                ErrorModel::Usage(
                                    "invalid value '"@ + text + "' for --keep-output-jobs"@,
                                ),
                            ),
                        },
                    },
                }
            } else {
                Err(unknown_subcommand(name))
            }
        },
    }
}

fn parse_storage(tokens: &Vec<String>, from: usize) -> (result: Result<Draft>)
    requires
        from <= tokens.len(),
    ensures
        error::outcome(result) == storage_draft(tokens.deep_view(), from as int),
        result matches Ok(d) ==> d.until is None,
{
    let at: usize = match find_grouped(tokens, from, "usage: clix storage <status|prune>") {
        Ok(at) => at,
        Err(e) => return Err(e),
    };
    assert(tokens.deep_view()[at as int] == tokens@[at as int]@);
    let name = &tokens[at];
    let command = if text_same(name, "status") {
        match match_words(Context::Plain, tokens, at + 1, 0, "") {
            Ok(_) => StorageCommand::Status,
            Err(e) => return Err(e),
        }
    } else if text_same(name, "prune") {
        let m = match match_words(Context::Prune, tokens, at + 1, 0, "") {
            Ok(m) => m,
            Err(e) => return Err(e),
        };
        match value_of(&m.options, "keep-output-jobs") {
            None => StorageCommand::Prune { keep_output_jobs: 0 },
            Some(text) => match parse_number(&text, usize::MAX as u64) {
                Some(n) => StorageCommand::Prune { keep_output_jobs: n as usize },
                None => return Err(
                    ClixError::Usage(
                        cat3("invalid value '", &text, "' for --keep-output-jobs"),
                    ),
                ),
            },
        }
    } else {
        return Err(unknown_command(name));
    };
    Ok(Draft { cmd: Cmd::Storage(command), until: None })
}

/// Words and the token that proves what was inspected.
pub open spec fn tokened(
    tokens: Seq<Seq<char>>,
    from: int,
    n: nat,
    shown: Seq<char>,
) -> Outcome<(Seq<Seq<char>>, Seq<char>)> {
    match worded(Context::Token, tokens, from, n, shown) {
        Err(e) => Err(e),
        Ok(m) => match options::value(m.options, "token"@) {
            None => Err(ErrorModel::Usage(shown)),
            Some(token) => Ok((m.words, token)),
        },
    }
}

fn match_token(tokens: &Vec<String>, from: usize, n: usize, shown: &str) -> (result: Result<
    (Matched, String),
>)
    requires
        from <= tokens.len(),
    ensures
        (match result {
            Ok((m, token)) => m.words.len() == n && tokened(
                tokens.deep_view(),
                from as int,
                n as nat,
                shown@,
            ) == Ok::<(Seq<Seq<char>>, Seq<char>), ErrorModel>((m@.words, token@)),
            Err(e) => tokened(tokens.deep_view(), from as int, n as nat, shown@) == Err::<
                (Seq<Seq<char>>, Seq<char>),
                ErrorModel,
            >(e@),
        }),
{
    let m = match match_words(Context::Token, tokens, from, n, shown) {
        Ok(m) => m,
        Err(e) => return Err(e),
    };
    match value_of(&m.options, "token") {
        Some(token) => Ok((m, token)),
        None => Err(usage(shown)),
    }
}

pub open spec fn invalid_choice(text: Seq<char>, choices: Seq<char>) -> ErrorModel {
    ErrorModel::Usage("invalid value '"@ + text + "' [possible values: "@ + choices + "]"@)
}

pub open spec fn recovery_outcome(tokens: Seq<Seq<char>>, from: int) -> Outcome<
    RecoveryCommandModel,
> {
    match grouped(tokens, from, "usage: clix pin recovery <list|inspect|export|resolve|discard>"@) {
        Err(e) => Err(e),
        Ok(at) => {
            let name = tokens[at as int];
            if name == "list"@ {
                match worded(Context::List, tokens, at + 1, 0, ""@) {
                    Err(e) => Err(e),
                    Ok(m) => Ok(RecoveryCommandModel::List { after: options::value(m.options, "after"@) }),
                }
            } else if name == "inspect"@ {
                match worded(Context::Plain, tokens, at + 1, 1, "usage: clix pin recovery inspect <id>"@) {
                    Err(e) => Err(e),
                    Ok(m) => Ok(RecoveryCommandModel::Inspect { id: m.words[0] }),
                }
            } else if name == "export"@ {
                match tokened(tokens, at + 1, 2, "usage: clix pin recovery export <id> <version> --token <token>"@) {
                    Err(e) => Err(e),
                    Ok((words, token)) => if words[1] == "receipt"@ || words[1] == "live"@
                        || words[1] == "retained"@ {
                        Ok(
                            RecoveryCommandModel::Export {
                                id: words[0],
                                version: words[1],
                                token,
                            },
                        )
                    } else {
                        Err(invalid_choice(words[1], "receipt, live, retained"@))
                    },
                }
            } else if name == "resolve"@ {
                match tokened(tokens, at + 1, 2, "usage: clix pin recovery resolve <id> <choice> --token <token>"@) {
                    Err(e) => Err(e),
                    Ok((words, token)) => if words[1] == "keep-live"@ || words[1]
                        == "restore-retained"@ {
                        Ok(
                            RecoveryCommandModel::Resolve {
                                id: words[0],
                                choice: words[1],
                                token,
                            },
                        )
                    } else {
                        Err(invalid_choice(words[1], "keep-live, restore-retained"@))
                    },
                }
            } else if name == "discard"@ {
                match tokened(tokens, at + 1, 1, "usage: clix pin recovery discard <id> --token <token>"@) {
                    Err(e) => Err(e),
                    Ok((words, token)) => Ok(
                        RecoveryCommandModel::Discard { id: words[0], token },
                    ),
                }
            } else {
                Err(unknown_subcommand(name))
            }
        },
    }
}

fn bad_choice(text: &str, choices: &str) -> (error: ClixError)
    ensures
        error@ == invalid_choice(text@, choices@),
{
    ClixError::Usage(cat5("invalid value '", text, "' [possible values: ", choices, "]"))
}

fn parse_recovery(tokens: &Vec<String>, from: usize) -> (result: Result<RecoveryCommand>)
    requires
        from <= tokens.len(),
    ensures
        error::outcome(result) == recovery_outcome(tokens.deep_view(), from as int),
{
    let at: usize = match find_grouped(
        tokens,
        from,
        "usage: clix pin recovery <list|inspect|export|resolve|discard>",
    ) {
        Ok(at) => at,
        Err(e) => return Err(e),
    };
    assert(tokens.deep_view()[at as int] == tokens@[at as int]@);
    let name = &tokens[at];
    if text_same(name, "list") {
        match match_words(Context::List, tokens, at + 1, 0, "") {
            Ok(m) => Ok(RecoveryCommand::List { after: value_of(&m.options, "after") }),
            Err(e) => Err(e),
        }
    } else if text_same(name, "inspect") {
        match match_words(
            Context::Plain,
            tokens,
            at + 1,
            1,
            "usage: clix pin recovery inspect <id>",
        ) {
            Ok(m) => Ok(RecoveryCommand::Inspect { id: word(&m, 0) }),
            Err(e) => Err(e),
        }
    } else if text_same(name, "export") {
        match match_token(
            tokens,
            at + 1,
            2,
            "usage: clix pin recovery export <id> <version> --token <token>",
        ) {
            Ok((m, token)) => {
                let version = word(&m, 1);
                if text_same(&version, "receipt") || text_same(&version, "live") || text_same(
                    &version,
                    "retained",
                ) {
                    Ok(RecoveryCommand::Export { id: word(&m, 0), version, token })
                } else {
                    Err(bad_choice(&version, "receipt, live, retained"))
                }
            },
            Err(e) => Err(e),
        }
    } else if text_same(name, "resolve") {
        match match_token(
            tokens,
            at + 1,
            2,
            "usage: clix pin recovery resolve <id> <choice> --token <token>",
        ) {
            Ok((m, token)) => {
                let choice = word(&m, 1);
                if text_same(&choice, "keep-live") || text_same(&choice, "restore-retained") {
                    Ok(RecoveryCommand::Resolve { id: word(&m, 0), choice, token })
                } else {
                    Err(bad_choice(&choice, "keep-live, restore-retained"))
                }
            },
            Err(e) => Err(e),
        }
    } else if text_same(name, "discard") {
        match match_token(
            tokens,
            at + 1,
            1,
            "usage: clix pin recovery discard <id> --token <token>",
        ) {
            Ok((m, token)) => Ok(RecoveryCommand::Discard { id: word(&m, 0), token }),
            Err(e) => Err(e),
        }
    } else {
        Err(unknown_command(name))
    }
}

pub open spec fn pin_draft(tokens: Seq<Seq<char>>, from: int) -> Outcome<DraftModel> {
    match grouped(tokens, from, "usage: clix pin <on|off|sync|conflicts|take-peer|recovery>"@) {
        Err(e) => Err(e),
        Ok(at) => {
            let name = tokens[at as int];
            if name == "on"@ {
                bare_draft(tokens, at + 1, CmdModel::Pin(PinCommandModel::On))
            } else if name == "off"@ {
                bare_draft(tokens, at + 1, CmdModel::Pin(PinCommandModel::Off))
            } else if name == "sync"@ {
                match worded(Context::Plain, tokens, at + 1, 1, "usage: clix pin sync <machine>"@) {
                    Err(e) => Err(e),
                    Ok(m) => settled(CmdModel::Pin(PinCommandModel::Sync { body: m.words[0] })),
                }
            } else if name == "conflicts"@ {
                match worded(Context::Plain, tokens, at + 1, 1, "usage: clix pin conflicts <machine>"@) {
                    Err(e) => Err(e),
                    Ok(m) => settled(
                        CmdModel::Pin(PinCommandModel::Conflicts { body: m.words[0] }),
                    ),
                }
            } else if name == "take-peer"@ {
                match tokened(tokens, at + 1, 2, "usage: clix pin take-peer <machine> <path> --token <token>"@) {
                    Err(e) => Err(e),
                    Ok((words, token)) => settled(
                        CmdModel::Pin(
                            PinCommandModel::TakePeer { body: words[0], path: words[1], token },
                        ),
                    ),
                }
            } else if name == "recovery"@ {
                match recovery_outcome(tokens, at + 1) {
                    Err(e) => Err(e),
                    Ok(command) => settled(CmdModel::Pin(PinCommandModel::Recovery { command })),
                }
            } else {
                Err(unknown_subcommand(name))
            }
        },
    }
}

fn parse_pin(tokens: &Vec<String>, from: usize) -> (result: Result<Draft>)
    requires
        from <= tokens.len(),
    ensures
        error::outcome(result) == pin_draft(tokens.deep_view(), from as int),
        result matches Ok(d) ==> d.until is None,
{
    let at: usize = match find_grouped(
        tokens,
        from,
        "usage: clix pin <on|off|sync|conflicts|take-peer|recovery>",
    ) {
        Ok(at) => at,
        Err(e) => return Err(e),
    };
    assert(tokens.deep_view()[at as int] == tokens@[at as int]@);
    let name = &tokens[at];
    let command = if text_same(name, "on") {
        return parse_bare(tokens, at + 1, Cmd::Pin(PinCommand::On));
    } else if text_same(name, "off") {
        return parse_bare(tokens, at + 1, Cmd::Pin(PinCommand::Off));
    } else if text_same(name, "sync") {
        match match_words(Context::Plain, tokens, at + 1, 1, "usage: clix pin sync <machine>") {
            Ok(m) => PinCommand::Sync { body: word(&m, 0) },
            Err(e) => return Err(e),
        }
    } else if text_same(name, "conflicts") {
        match match_words(Context::Plain, tokens, at + 1, 1, "usage: clix pin conflicts <machine>") {
            Ok(m) => PinCommand::Conflicts { body: word(&m, 0) },
            Err(e) => return Err(e),
        }
    } else if text_same(name, "take-peer") {
        match match_token(
            tokens,
            at + 1,
            2,
            "usage: clix pin take-peer <machine> <path> --token <token>",
        ) {
            Ok((m, token)) => PinCommand::TakePeer { body: word(&m, 0), path: word(&m, 1), token },
            Err(e) => return Err(e),
        }
    } else if text_same(name, "recovery") {
        match parse_recovery(tokens, at + 1) {
            Ok(command) => PinCommand::Recovery { command },
            Err(e) => return Err(e),
        }
    } else {
        return Err(unknown_command(name));
    };
    Ok(Draft { cmd: Cmd::Pin(command), until: None })
}

/// `--no-wait` before the body or between body and tool. Not stolen from tool argv.
pub open spec fn stripped(parts: Seq<Seq<char>>, no_wait: bool) -> (Seq<Seq<char>>, bool) {
    let leads = parts.len() > 0 && parts[0] == "--no-wait"@;
    let rest = if leads {
        parts.skip(1)
    } else {
        parts
    };
    if rest.len() >= 2 && rest[1] == "--no-wait"@ {
        (rest.remove(1), true)
    } else {
        (rest, no_wait || leads)
    }
}

pub fn strip_no_wait(parts: Vec<String>, no_wait: bool) -> (stripped_parts: (Vec<String>, bool))
    ensures
        (stripped_parts.0.deep_view(), stripped_parts.1) == stripped(parts.deep_view(), no_wait),
{
    let ghost all = parts.deep_view();
    let mut parts = parts;
    let mut waits_not = no_wait;
    if parts.len() > 0 {
        assert(all[0] == parts@[0]@);
        if text_same(&parts[0], "--no-wait") {
            waits_not = true;
            parts.remove(0);
            assert(parts.deep_view() =~= all.skip(1));
        }
    }
    let ghost rest = parts.deep_view();
    if parts.len() >= 2 {
        assert(rest[1] == parts@[1]@);
        if text_same(&parts[1], "--no-wait") {
            waits_not = true;
            parts.remove(1);
            assert(parts.deep_view() =~= rest.remove(1));
        }
    }
    (parts, waits_not)
}

/// A machine and the tool with its arguments.
pub open spec fn exec_draft(parts: Seq<Seq<char>>, no_wait: bool, shown: Seq<char>) -> Outcome<
    DraftModel,
> {
    if parts.len() < 2 {
        Err(ErrorModel::Usage(shown))
    } else {
        settled(CmdModel::Exec { body: parts[0], argv: parts.skip(1), no_wait })
    }
}

/// The same, for a machine that is named outright.
pub open spec fn named_exec_draft(parts: Seq<Seq<char>>, no_wait: bool, shown: Seq<char>) -> Outcome<
    DraftModel,
> {
    if parts.len() < 2 {
        Err(ErrorModel::Usage(shown))
    } else if pair::name_outcome(parts[0]) is Err {
        Err(pair::name_outcome(parts[0])->Err_0)
    } else {
        exec_draft(parts, no_wait, shown)
    }
}

fn tail(tokens: &Vec<String>, from: usize) -> (rest: Vec<String>)
    requires
        from <= tokens.len(),
    ensures
        rest.deep_view() == tokens.deep_view().skip(from as int),
{
    let ghost view = tokens.deep_view();
    let mut rest: Vec<String> = Vec::new();
    let mut i: usize = from;
    while i < tokens.len()
        invariant
            from <= i <= tokens.len(),
            view == tokens.deep_view(),
            rest.len() == i - from,
            forall|j: int| 0 <= j < rest.len() ==> (#[trigger] rest@[j])@ == view[from + j],
        decreases tokens.len() - i,
    {
        assert(view[i as int] == tokens@[i as int]@);
        rest.push(tokens[i].dup());
        i += 1;
    }
    assert(rest.deep_view() =~= view.skip(from as int));
    rest
}

fn exec_of(parts: &Vec<String>, no_wait: bool, shown: &str) -> (result: Result<Draft>)
    ensures
        error::outcome(result) == exec_draft(parts.deep_view(), no_wait, shown@),
        result matches Ok(d) ==> d.until is None,
{
    if parts.len() < 2 {
        return Err(usage(shown));
    }
    assert(parts.deep_view()[0] == parts@[0]@);
    Ok(
        Draft {
            cmd: Cmd::Exec { body: parts[0].dup(), argv: tail(parts, 1), no_wait },
            until: None,
        },
    )
}

fn named_exec_of(parts: &Vec<String>, no_wait: bool, shown: &str) -> (result: Result<Draft>)
    ensures
        error::outcome(result) == named_exec_draft(parts.deep_view(), no_wait, shown@),
        result matches Ok(d) ==> d.until is None,
{
    if parts.len() < 2 {
        return Err(usage(shown));
    }
    assert(parts.deep_view()[0] == parts@[0]@);
    if let Err(e) = validate_name(&parts[0]) {
        return Err(e);
    }
    exec_of(parts, no_wait, shown)
}

/// The command that a word names, or a run on the machine that it names.
pub open spec fn worded_draft(tokens: Seq<Seq<char>>, at: int, no_wait: bool) -> Outcome<
    DraftModel,
> {
    let name = tokens[at];
    if name == "add"@ {
        add_draft(tokens, at + 1)
    } else if name == "allow"@ {
        allow_draft(tokens, at + 1)
    } else if name == "pair"@ {
        pair_draft(tokens, at + 1)
    } else if name == "hands"@ || name == "grants"@ {
        bare_draft(tokens, at + 1, CmdModel::Hands)
    } else if name == "log"@ {
        bare_draft(tokens, at + 1, CmdModel::Log)
    } else if name == "pending"@ {
        bare_draft(tokens, at + 1, CmdModel::Pending)
    } else if name == "daemon"@ {
        bare_draft(tokens, at + 1, CmdModel::Daemon)
    } else if name == "install"@ {
        bare_draft(tokens, at + 1, CmdModel::Install)
    } else if name == "status"@ {
        bare_draft(tokens, at + 1, CmdModel::Status)
    } else if name == "remove"@ || name == "deny"@ || name == "request"@ {
        words_draft(tokens, at + 1, name)
    } else if name == "job"@ {
        job_draft(tokens, at + 1)
    } else if name == "storage"@ {
        storage_draft(tokens, at + 1)
    } else if name == "pin"@ {
        pin_draft(tokens, at + 1)
    } else {
        let (parts, waits_not) = stripped(tokens.skip(at), no_wait);
        exec_draft(parts, waits_not, "usage: clix <body> <cmd>…"@)
    }
}

fn parse_worded(tokens: &Vec<String>, at: usize, no_wait: bool) -> (result: Result<Draft>)
    requires
        at < tokens.len(),
    ensures
        error::outcome(result) == worded_draft(tokens.deep_view(), at as int, no_wait),
        result matches Ok(d) ==> (d.until matches Some((_, minutes)) ==> minutes < 1440),
{
    assert(tokens.deep_view()[at as int] == tokens@[at as int]@);
    let name = &tokens[at];
    if text_same(name, "add") {
        parse_add(tokens, at + 1)
    } else if text_same(name, "allow") {
        parse_allow(tokens, at + 1)
    } else if text_same(name, "pair") {
        parse_pair(tokens, at + 1)
    } else if text_same(name, "hands") || text_same(name, "grants") {
        parse_bare(tokens, at + 1, Cmd::Hands)
    } else if text_same(name, "log") {
        parse_bare(tokens, at + 1, Cmd::Log)
    } else if text_same(name, "pending") {
        parse_bare(tokens, at + 1, Cmd::Pending)
    } else if text_same(name, "daemon") {
        parse_bare(tokens, at + 1, Cmd::Daemon)
    } else if text_same(name, "install") {
        parse_bare(tokens, at + 1, Cmd::Install)
    } else if text_same(name, "status") {
        parse_bare(tokens, at + 1, Cmd::Status)
    } else if text_same(name, "remove") || text_same(name, "deny") || text_same(name, "request") {
        parse_words(tokens, at + 1, name)
    } else if text_same(name, "job") {
        parse_job(tokens, at + 1)
    } else if text_same(name, "storage") {
        parse_storage(tokens, at + 1)
    } else if text_same(name, "pin") {
        parse_pin(tokens, at + 1)
    } else {
        let (parts, waits_not) = strip_no_wait(tail(tokens, at), no_wait);
        exec_of(&parts, waits_not, "usage: clix <body> <cmd>…")
    }
}

/// Where an explicit destination starts: past `--` or at `@body`, after an
/// optional `--no-wait`.
pub open spec fn lead(argv: Seq<Seq<char>>) -> int {
    if argv.len() > 1 && argv[1] == "--no-wait"@ {
        2
    } else {
        1
    }
}

pub open spec fn drafted(argv: Seq<Seq<char>>) -> Outcome<DraftModel> {
    let at = lead(argv);
    if at < argv.len() && argv[at] == "--"@ {
        named_exec_draft(
            argv.skip(at + 1),
            at == 2,
            "usage: clix [--no-wait] -- <body> <cmd>…"@,
        )
    } else if at < argv.len() && scan::begins(argv[at], "@"@) {
        let (parts, waits_not) = stripped(
            seq![argv[at].skip(1)] + argv.skip(at + 1),
            at == 2,
        );
        named_exec_draft(parts, waits_not, "usage: clix [--no-wait] @<body> <cmd>…"@)
    } else {
        match options::headed(argv, 1, false) {
            Err(e) => Err(e),
            Ok((_, None)) => Err(ErrorModel::Usage("usage: clix <command>"@)),
            Ok((no_wait, Some(word))) => worded_draft(argv, word as int, no_wait),
        }
    }
}

/// The command in a command line, up to what the local calendar decides.
pub fn parse_draft(argv: &Vec<String>) -> (result: Result<Draft>)
    ensures
        error::outcome(result) == drafted(argv.deep_view()),
        result matches Ok(d) ==> (d.until matches Some((_, minutes)) ==> minutes < 1440),
{
    let ghost view = argv.deep_view();
    proof {
        reveal_strlit("@");
    }
    if argv.len() > 1 {
        assert(view[1] == argv@[1]@);
    }
    let at: usize = if argv.len() > 1 && text_same(&argv[1], "--no-wait") {
        2
    } else {
        1
    };
    if at < argv.len() {
        assert(view[at as int] == argv@[at as int]@);
        if text_same(&argv[at], "--") {
            return named_exec_of(
                &tail(argv, at + 1),
                at == 2,
                "usage: clix [--no-wait] -- <body> <cmd>…",
            );
        }
        if let Some(body) = after_prefix(&argv[at], "@") {
            let mut parts = tail(argv, at + 1);
            let ghost rest = parts.deep_view();
            let ghost first = body@;
            parts.insert(0, body);
            assert(parts.deep_view() =~= seq![first] + rest);
            let (parts, waits_not) = strip_no_wait(parts, at == 2);
            return named_exec_of(&parts, waits_not, "usage: clix [--no-wait] @<body> <cmd>…");
        }
    }
    if argv.len() == 0 {
        return Err(usage("usage: clix <command>"));
    }
    match find_head(argv, 1) {
        Err(e) => Err(e),
        Ok((_, None)) => Err(usage("usage: clix <command>")),
        Ok((no_wait, Some(at))) => parse_worded(argv, at, no_wait),
    }
}

/// A command with its expiry.
pub open spec fn with_until(cmd: CmdModel, ends: TimestampModel) -> CmdModel {
    match cmd {
        CmdModel::Add {
            tool,
            allow,
            once,
            for_dur,
            until: _,
            days,
            dates,
            from,
            to,
            weekdays,
            args,
        } => CmdModel::Add {
            tool,
            allow,
            once,
            for_dur,
            until: Some(ends),
            days,
            dates,
            from,
            to,
            weekdays,
            args,
        },
        CmdModel::Allow {
            request_id,
            allow,
            once,
            for_dur,
            until: _,
            days,
            dates,
            from,
            to,
            weekdays,
        } => CmdModel::Allow {
            request_id,
            allow,
            once,
            for_dur,
            until: Some(ends),
            days,
            dates,
            from,
            to,
            weekdays,
        },
        other => other,
    }
}

pub open spec fn completed(draft: DraftModel, moments: Moments) -> Outcome<CmdModel> {
    match draft.until {
        None => Ok(draft.cmd),
        Some((text, _)) => match values::until_outcome(text, moments) {
            Err(e) => Err(e),
            Ok(ends) => Ok(with_until(draft.cmd, ends)),
        },
    }
}

/// A drafted command, with its expiry looked up in the local calendar.
pub fn complete(draft: Draft, moments: &Moments) -> (result: Result<Cmd>)
    ensures
        error::outcome(result) == completed(draft@, *moments),
{
    let ends = match &draft.until {
        None => return Ok(draft.cmd),
        Some((text, _)) => match resolve_until(text, moments) {
            Ok(ends) => ends,
            Err(e) => return Err(e),
        },
    };
    Ok(
        match draft.cmd {
            Cmd::Add {
                tool,
                allow,
                once,
                for_dur,
                until: _,
                days,
                dates,
                from,
                to,
                weekdays,
                args,
            } => Cmd::Add {
                tool,
                allow,
                once,
                for_dur,
                until: Some(ends),
                days,
                dates,
                from,
                to,
                weekdays,
                args,
            },
            Cmd::Allow {
                request_id,
                allow,
                once,
                for_dur,
                until: _,
                days,
                dates,
                from,
                to,
                weekdays,
            } => Cmd::Allow {
                request_id,
                allow,
                once,
                for_dur,
                until: Some(ends),
                days,
                dates,
                from,
                to,
                weekdays,
            },
            other => other,
        },
    )
}

/// The time of day at which a drafted command's `--until` ends, in minutes.
pub open spec fn until_minutes(draft: DraftModel) -> u32 {
    match draft.until {
        Some((_, minutes)) => minutes,
        None => 0,
    }
}

/// The command that a command line asks for. Only the end of `--until` depends
/// on anything but the words.
pub fn parse_argv(argv: &Vec<String>) -> (result: Result<Cmd>)
    ensures
        (match drafted(argv.deep_view()) {
            Err(e) => error::outcome(result) == Err::<CmdModel, ErrorModel>(e),
            Ok(draft) => {
                &&& draft.until is None ==> error::outcome(result) == Ok::<CmdModel, ErrorModel>(draft.cmd)
                &&& exists|moments: Moments|
                    crate::schedule::on_a_clock(moments, until_minutes(draft)) && error::outcome(result)
                        == #[trigger] completed(draft, moments)
            },
        }),
{
    let draft = match parse_draft(argv) {
        Ok(draft) => draft,
        Err(e) => return Err(e),
    };
    let minutes: u32 = match &draft.until {
        Some((_, minutes)) => *minutes,
        None => 0,
    };
    let moments = local_moments(minutes);
    let ghost drawn = draft@;
    let result = complete(draft, &moments);
    assert(error::outcome(result) == completed(drawn, moments));
    result
}

} // verus!
