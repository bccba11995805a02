//! The owner's commands as they are written: every word, option and value is taken
//! as it stands, and becomes the command that it names.

use vstd::prelude::*;

use crate::cli::command::{
    CmdModel, JobCommandModel, PinCommandModel, RecoveryCommandModel, StorageCommandModel,
};
use crate::cli::options;
use crate::cli::options::{Arity, Context, MatchedModel};
use crate::cli::parse;
use crate::cli::parse::{DraftModel, GrantNarrowModel};
use crate::cli::values;
use crate::error::{ErrorModel, Outcome};
use crate::laws::texts;
use crate::scan;
use crate::schedule::Moments;
use crate::search;
use crate::text;

verus! {

/// Giving an option once more adds its value to those it has, and to no other
/// option's.
pub proof fn law_option_values(
    options: Seq<(Seq<char>, Seq<char>)>,
    name: Seq<char>,
    value: Seq<char>,
    other: Seq<char>,
)
    ensures
        options::values(Seq::empty(), name) == Seq::<Seq<char>>::empty(),
        options::values(options.push((name, value)), name) == options::values(options, name).push(
            value,
        ),
        other != name ==> options::values(options.push((name, value)), other) == options::values(
            options,
            other,
        ),
        options::value(options, name) is Some <==> options::given(options, name),
        !options::given(options, name) ==> options::value(options.push((name, value)), name) == Some(
            value,
        ),
        options::given(options.push((name, value)), name),
        other != name ==> options::given(options.push((name, value)), other) == options::given(
            options,
            other,
        ),
{
    let more = options.push((name, value));
    assert(more.drop_last() =~= options);
    lemma_given(options, name);
    assert(more[options.len() as int].0 == name);
    if other != name {
        if options::given(more, other) {
            let i = choose|i: int| 0 <= i < more.len() && (#[trigger] more[i]).0 == other;
            assert(options[i].0 == other);
        }
        if options::given(options, other) {
            let i = choose|i: int| 0 <= i < options.len() && (#[trigger] options[i]).0 == other;
            assert(more[i].0 == other);
        }
    }
}

proof fn lemma_given(options: Seq<(Seq<char>, Seq<char>)>, name: Seq<char>)
    ensures
        options::given(options, name) <==> options::values(options, name).len() > 0,
    decreases options.len(),
{
    if options.len() > 0 {
        let rest = options.drop_last();
        lemma_given(rest, name);
        if options::given(rest, name) {
            let i = choose|i: int| 0 <= i < rest.len() && (#[trigger] rest[i]).0 == name;
            assert(options[i].0 == name);
        }
        if options::given(options, name) {
            let i = choose|i: int| 0 <= i < options.len() && (#[trigger] options[i]).0 == name;
            if i < rest.len() {
                assert(rest[i].0 == name);
            }
        }
        assert(options.last().0 == name ==> options[options.len() - 1].0 == name);
    }
}

/// An option with an equals sign has its name before the first one and its value
/// behind it; without one it has no value.
pub proof fn law_option_with_equals(name: Seq<char>, value: Seq<char>)
    requires
        !name.contains('='),
    ensures
        options::option_parts(name) == (name, None::<Seq<char>>),
        options::option_parts(name + seq!['='] + value) == (name, Some(value)),
{
    lemma_no_equals(name, Seq::empty());
    assert(name + Seq::<char>::empty() =~= name);
    let body = name + seq!['='] + value;
    lemma_no_equals(name, seq!['='] + value);
    assert(body =~= name + (seq!['='] + value));
    assert(body.take(name.len() as int) =~= name);
    assert(body.skip(name.len() as int + 1) =~= value);
}

proof fn lemma_no_equals(name: Seq<char>, rest: Seq<char>)
    requires
        !name.contains('='),
        rest.len() == 0 || rest[0] == '=',
    ensures
        options::equals_at(name + rest) == name.len(),
    decreases name.len(),
{
    if name.len() == 0 {
        assert(name + rest =~= rest);
    } else {
        assert(name[0] != '=');
        assert((name + rest).skip(1) =~= name.skip(1) + rest);
        assert(!name.skip(1).contains('=')) by {
            if name.skip(1).contains('=') {
                let i = choose|i: int| 0 <= i < name.skip(1).len() && name.skip(1)[i] == '=';
                assert(name[i + 1] == '=');
            }
        }
        lemma_no_equals(name.skip(1), rest);
    }
}

/// An option as it is written: its name behind two dashes, and its value behind that
/// where it takes one.
pub open spec fn option_tokens(context: Context, option: (Seq<char>, Seq<char>)) -> Seq<Seq<char>> {
    if options::arity(context, option.0) == Some(Arity::Flag) {
        seq!["--"@ + option.0]
    } else {
        seq!["--"@ + option.0, option.1]
    }
}

pub open spec fn written(context: Context, options: Seq<(Seq<char>, Seq<char>)>) -> Seq<Seq<char>>
    decreases options.len(),
{
    if options.len() == 0 {
        Seq::empty()
    } else {
        option_tokens(context, options[0]) + written(context, options.skip(1))
    }
}

/// An option that a command knows, with a value where it takes one.
pub open spec fn writable(context: Context, option: (Seq<char>, Seq<char>)) -> bool {
    &&& option.0.len() > 0
    &&& !option.0.contains('=')
    &&& option.0 != "help"@
    &&& options::arity(context, option.0) is Some
    &&& options::arity(context, option.0) == Some(Arity::Flag) ==> option.1 == ""@
    &&& options::arity(context, option.0) != Some(Arity::Flag) ==> !options::dashed(option.1)
}

/// Options that a command knows, each once unless it may be repeated.
pub open spec fn all_writable(context: Context, options: Seq<(Seq<char>, Seq<char>)>) -> bool {
    &&& forall|i: int| 0 <= i < options.len() ==> writable(context, #[trigger] options[i])
    &&& forall|i: int, j: int|
        0 <= i < j < options.len() && (#[trigger] options[i]).0 == (#[trigger] options[j]).0
            ==> options::arity(context, options[i].0) == Some(Arity::Many)
}

proof fn lemma_options_scanned(
    context: Context,
    tokens: Seq<Seq<char>>,
    at: int,
    done: Seq<(Seq<char>, Seq<char>)>,
    words: Seq<Seq<char>>,
    rest: Seq<(Seq<char>, Seq<char>)>,
)
    requires
        0 <= at <= tokens.len(),
        tokens.skip(at) == written(context, rest),
        all_writable(context, done + rest),
    ensures
        options::scanned(context, tokens, at, done, words) == Ok::<MatchedModel, ErrorModel>(
            MatchedModel { options: done + rest, words },
        ),
    decreases rest.len(),
{
    if rest.len() == 0 {
        assert(tokens.skip(at).len() == 0);
        assert(done + rest =~= done);
    } else {
        reveal_strlit("--");
        reveal_strlit("help");
        let option = rest[0];
        let name = option.0;
        let tail = written(context, rest.skip(1));
        assert((done + rest)[done.len() as int] == option);
        assert(writable(context, option));
        let first = "--"@ + name;
        assert(tokens.skip(at).len() == tokens.len() - at);
        assert(tokens.skip(at)[0] == first);
        assert(tokens[at] == first);
        assert(first != "--"@) by {
            assert(first.len() > 2);
        }
        assert(first.take(2) =~= "--"@);
        assert(first.skip(2) =~= name);
        law_option_with_equals(name, Seq::empty());
        let arity = options::arity(context, name)->0;
        assert(arity != Arity::Many ==> !options::given(done, name)) by {
            if options::given(done, name) {
                let i = choose|i: int| 0 <= i < done.len() && (#[trigger] done[i]).0 == name;
                assert((done + rest)[i].0 == name);
                assert((done + rest)[done.len() as int].0 == name);
            }
        }
        let next = done.push(option);
        assert(next + rest.skip(1) =~= done + rest);
        if arity == Arity::Flag {
            assert(tokens.skip(at + 1) =~= tail) by {
                assert(tokens.skip(at).skip(1) =~= tail);
                assert(tokens.skip(at).skip(1) =~= tokens.skip(at + 1));
            }
            assert(done.push((name, ""@)) =~= next);
            lemma_options_scanned(context, tokens, at + 1, next, words, rest.skip(1));
        } else {
            assert(tokens.skip(at)[1] == option.1);
            assert(tokens[at + 1] == option.1);
            assert(tokens.skip(at + 2) =~= tail) by {
                assert(tokens.skip(at).skip(2) =~= tail);
                assert(tokens.skip(at).skip(2) =~= tokens.skip(at + 2));
            }
            assert(done.push((name, option.1)) =~= next);
            lemma_options_scanned(context, tokens, at + 2, next, words, rest.skip(1));
        }
    }
}

proof fn lemma_words_scanned(
    context: Context,
    tokens: Seq<Seq<char>>,
    at: int,
    done: Seq<Seq<char>>,
    words: Seq<Seq<char>>,
    options: Seq<(Seq<char>, Seq<char>)>,
)
    requires
        0 <= at <= tokens.len(),
        tokens.skip(at) == words + written(context, options),
        forall|i: int| 0 <= i < words.len() ==> !options::dashed(#[trigger] words[i]),
        all_writable(context, options),
    ensures
        options::scanned(context, tokens, at, Seq::empty(), done) == Ok::<MatchedModel, ErrorModel>(
            MatchedModel { options, words: done + words },
        ),
    decreases words.len(),
{
    let none = Seq::<(Seq<char>, Seq<char>)>::empty();
    if words.len() == 0 {
        assert(words + written(context, options) =~= written(context, options));
        assert(none + options =~= options);
        assert(done + words =~= done);
        lemma_options_scanned(context, tokens, at, none, done, options);
    } else {
        reveal_strlit("--");
        reveal_strlit("-h");
        let word = words[0];
        assert(tokens.skip(at).len() == tokens.len() - at);
        assert(tokens.skip(at)[0] == word);
        assert(tokens[at] == word);
        assert(!options::dashed(words[0]));
        assert(word != "--"@ && word != "-h"@) by {
            assert("--"@[0] == '-' && "-h"@[0] == '-');
        }
        assert(!scan::begins(word, "--"@)) by {
            if scan::begins(word, "--"@) {
                assert(word.take(2)[0] == word[0]);
                assert("--"@[0] == '-');
            }
        }
        assert(tokens.skip(at + 1) =~= words.skip(1) + written(context, options)) by {
            assert(tokens.skip(at).skip(1) =~= tokens.skip(at + 1));
            assert((words + written(context, options)).skip(1) =~= words.skip(1) + written(
                context,
                options,
            ));
        }
        assert forall|i: int| 0 <= i < words.skip(1).len() implies !options::dashed(
            #[trigger] words.skip(1)[i],
        ) by {
            assert(!options::dashed(words[i + 1]));
        }
        assert(done.push(word) + words.skip(1) =~= done + words);
        lemma_words_scanned(context, tokens, at + 1, done.push(word), words.skip(1), options);
    }
}

/// Words and options are read as they were written: the words in their order, the
/// options in theirs, each with its value.
pub proof fn law_written_is_read(
    context: Context,
    head: Seq<Seq<char>>,
    words: Seq<Seq<char>>,
    options: Seq<(Seq<char>, Seq<char>)>,
)
    requires
        forall|i: int| 0 <= i < words.len() ==> !options::dashed(#[trigger] words[i]),
        all_writable(context, options),
    ensures
        options::matched(
            context,
            head + words + written(context, options),
            head.len() as int,
        ) == Ok::<MatchedModel, ErrorModel>(MatchedModel { options, words }),
{
    let tokens = head + words + written(context, options);
    assert(tokens.skip(head.len() as int) =~= words + written(context, options));
    assert(Seq::<Seq<char>>::empty() + words =~= words);
    lemma_words_scanned(context, tokens, head.len() as int, Seq::empty(), words, options);
}

/// Behind two dashes everything is a word.
pub proof fn law_words_behind_dashes(
    context: Context,
    head: Seq<Seq<char>>,
    words: Seq<Seq<char>>,
)
    ensures
        options::matched(context, head + seq!["--"@] + words, head.len() as int) == Ok::<
            MatchedModel,
            ErrorModel,
        >(MatchedModel { options: Seq::empty(), words }),
{
    let tokens = head + seq!["--"@] + words;
    assert(tokens[head.len() as int] == "--"@);
    assert(tokens.skip(head.len() as int + 1) =~= words);
    assert(Seq::<Seq<char>>::empty() + words =~= words);
}

/// The terms of a grant are what its options say, each from its own option. A grant is
/// for one run where that is asked for, or, as an approval, where nothing asks for more.
pub proof fn law_terms_as_written(
    options: Seq<(Seq<char>, Seq<char>)>,
    default_once: bool,
    require_scope: bool,
)
    ensures
        parse::narrowed(options, default_once, require_scope) matches Ok(g) ==> {
            let lasting = options::given(options, "for"@) || options::given(options, "until"@)
                || options::given(options, "from"@) || options::given(options, "to"@)
                || options::given(options, "weekdays"@) || parse::spread(
                options::values(options, "days"@),
            ).len() > 0 || parse::spread(options::values(options, "dates"@)).len() > 0;
            &&& !options::given(options, "server"@) ==> g.allow == options::values(
                options,
                "allow"@,
            )
            &&& options::given(options, "server"@) ==> g.allow == options::values(
                options,
                "allow"@,
            ).push("server"@)
            &&& g.once <==> options::given(options, "once"@) || (default_once && !lasting)
            &&& options::value(options, "for"@) is None ==> g.for_dur is None
            &&& options::value(options, "for"@) matches Some(t) ==> (values::duration_outcome(
                t,
            ) matches Ok(secs) && g.for_dur == Some(secs))
            &&& options::value(options, "until"@) is None ==> g.until is None
            &&& options::value(options, "until"@) matches Some(t) ==> (values::ampm_outcome(
                t,
            ) matches Ok(minutes) && g.until == Some((t, minutes)))
            &&& g.from == options::value(options, "from"@)
            &&& g.to == options::value(options, "to"@)
            &&& g.weekdays == options::given(options, "weekdays"@)
            &&& values::days_from(
                parse::spread(options::values(options, "days"@)),
                0,
                Seq::empty(),
            ) == Ok::<Seq<Seq<char>>, ErrorModel>(g.days)
            &&& values::dates_from(
                parse::spread(options::values(options, "dates"@)),
                0,
                Seq::empty(),
            ) == Ok::<Seq<u8>, ErrorModel>(g.dates)
            &&& require_scope ==> options::given(options, "all"@) || options::given(
                options,
                "server"@,
            ) || options::given(options, "allow"@)
            &&& options::given(options, "all"@) ==> g.allow.len() == 0
            &&& !(g.once && options::given(options, "once"@) && (g.weekdays || g.days.len() > 0
                || g.dates.len() > 0))
        },
{
    lemma_given(options, "for"@);
    lemma_given(options, "until"@);
    lemma_given(options, "from"@);
    lemma_given(options, "to"@);
    lemma_given(options, "allow"@);
    law_days_as_written(parse::spread(options::values(options, "days"@)));
    law_dates_as_written(parse::spread(options::values(options, "dates"@)));
}

/// A grant whose options do not contradict each other and whose values can be read is
/// accepted. To name its scope is the owner's to do.
pub proof fn law_sound_terms_are_accepted(
    options: Seq<(Seq<char>, Seq<char>)>,
    default_once: bool,
    require_scope: bool,
)
    ensures
        ({
            let scoped = options::given(options, "allow"@) || options::given(options, "server"@);
            let all = options::given(options, "all"@);
            let days = parse::spread(options::values(options, "days"@));
            let dates = parse::spread(options::values(options, "dates"@));
            let weekdays = options::given(options, "weekdays"@);
            let timed = |name: Seq<char>|
                options::value(options, name) matches Some(t) ==> values::ampm_outcome(t) is Ok;
            parse::narrowed(options, default_once, require_scope) is Ok <==> {
                &&& !(all && scoped)
                &&& require_scope ==> all || scoped
                &&& !(options::given(options, "once"@) && (days.len() > 0 || dates.len() > 0
                    || weekdays))
                &&& !(weekdays && days.len() > 0)
                &&& values::days_from(days, 0, Seq::empty()) is Ok
                &&& values::dates_from(dates, 0, Seq::empty()) is Ok
                &&& timed("from"@) && timed("to"@) && timed("until"@)
                &&& options::value(options, "for"@) matches Some(t) ==> values::duration_outcome(t)
                    is Ok
            }
        }),
{
    lemma_given(options, "allow"@);
}

/// Every weekday that is named is one, and is kept in small letters.
pub proof fn law_days_as_written(days: Seq<Seq<char>>)
    ensures
        values::days_from(days, 0, Seq::empty()) is Ok <==> forall|i: int|
            0 <= i < days.len() ==> values::weekday_name(
                scan::lowered(scan::trimmed(#[trigger] days[i])),
            ),
        values::days_from(days, 0, Seq::empty()) matches Ok(all) ==> all.len() == days.len() && (
        forall|i: int|
            0 <= i < days.len() ==> all[i] == scan::lowered(scan::trimmed(#[trigger] days[i]))),
{
    lemma_days(days, 0, Seq::empty());
}

proof fn lemma_days(days: Seq<Seq<char>>, i: int, read: Seq<Seq<char>>)
    requires
        0 <= i <= days.len(),
    ensures
        values::days_from(days, i, read) is Ok <==> forall|j: int|
            i <= j < days.len() ==> values::weekday_name(
                scan::lowered(scan::trimmed(#[trigger] days[j])),
            ),
        values::days_from(days, i, read) matches Ok(all) ==> all.len() == read.len() + days.len() - i
            && (forall|j: int| 0 <= j < read.len() ==> #[trigger] all[j] == read[j]) && (forall|j: int|
            i <= j < days.len() ==> all[read.len() + j - i] == scan::lowered(
                scan::trimmed(#[trigger] days[j]),
            )),
    decreases days.len() - i,
{
    if i < days.len() {
        let day = scan::lowered(scan::trimmed(days[i]));
        if values::weekday_name(day) {
            lemma_days(days, i + 1, read.push(day));
            if let Ok(all) = values::days_from(days, i, read) {
                assert(all[read.len() as int] == read.push(day)[read.len() as int]);
                assert forall|j: int| 0 <= j < read.len() implies #[trigger] all[j] == read[j] by {
                    assert(all[j] == read.push(day)[j]);
                }
            }
        }
    }
}

/// Every date that is named is a day of the month, and is kept as its number.
pub proof fn law_dates_as_written(dates: Seq<Seq<char>>)
    ensures
        values::dates_from(dates, 0, Seq::empty()) is Ok <==> forall|i: int|
            0 <= i < dates.len() ==> (scan::number(scan::trimmed(#[trigger] dates[i])) matches Some(
                n,
            ) && 1 <= n <= 31),
        values::dates_from(dates, 0, Seq::empty()) matches Ok(all) ==> all.len() == dates.len() && (
        forall|i: int|
            0 <= i < dates.len() ==> (scan::number(scan::trimmed(#[trigger] dates[i])) matches Some(
                n,
            ) && all[i] == n)),
{
    lemma_dates(dates, 0, Seq::empty());
}

proof fn lemma_dates(dates: Seq<Seq<char>>, i: int, read: Seq<u8>)
    requires
        0 <= i <= dates.len(),
    ensures
        values::dates_from(dates, i, read) is Ok <==> forall|j: int|
            i <= j < dates.len() ==> (scan::number(scan::trimmed(#[trigger] dates[j])) matches Some(
                n,
            ) && 1 <= n <= 31),
        values::dates_from(dates, i, read) matches Ok(all) ==> all.len() == read.len() + dates.len()
            - i && (forall|j: int| 0 <= j < read.len() ==> #[trigger] all[j] == read[j]) && (
        forall|j: int|
            i <= j < dates.len() ==> (scan::number(scan::trimmed(#[trigger] dates[j])) matches Some(
                n,
            ) && all[read.len() + j - i] == n)),
    decreases dates.len() - i,
{
    if i < dates.len() {
        match scan::bounded_number(scan::trimmed(dates[i]), 31) {
            Some(n) if n >= 1 => {
                lemma_dates(dates, i + 1, read.push(n as u8));
                if let Ok(all) = values::dates_from(dates, i, read) {
                    assert(all[read.len() as int] == read.push(n as u8)[read.len() as int]);
                    assert forall|j: int| 0 <= j < read.len() implies #[trigger] all[j]
                        == read[j] by {
                        assert(all[j] == read.push(n as u8)[j]);
                    }
                }
            },
            _ => {
                let n = scan::number(scan::trimmed(dates[i]));
                assert(!(n is Some && 1 <= n->0 <= 31));
            },
        }
    }
}

/// A value may list several, separated by commas; each value adds its own.
pub proof fn law_listed_values(listed: Seq<Seq<char>>, value: Seq<char>)
    ensures
        parse::spread(Seq::empty()) == Seq::<Seq<char>>::empty(),
        parse::spread(listed.push(value)) == parse::spread(listed) + text::pieces(value, ','),
{
    assert(listed.push(value).drop_last() =~= listed);
}

/// A list of permitted arguments is its words, between spaces; the empty text permits
/// a run without arguments.
pub proof fn law_permitted_arguments(words: Seq<Seq<char>>)
    requires
        forall|i: int|
            0 <= i < words.len() ==> (#[trigger] words[i]).len() > 0 && !words[i].contains(' '),
    ensures
        parse::only_words(texts::rejoined(words, ' ')) == words,
{
    if words.len() == 0 {
        let none = Seq::<char>::empty();
        assert(text::pieces(none, ' ') =~= seq![none]);
        let all = seq![none];
        assert(all.drop_last() =~= Seq::<Seq<char>>::empty());
        assert(search::kept(all.drop_last(), parse::nonempty()) =~= Seq::<Seq<char>>::empty());
        assert(search::kept(all, parse::nonempty()) =~= words);
    } else {
        texts::law_joined_texts_are_the_pieces(words, ' ');
        assert forall|i: int| 0 <= i < words.len() implies parse::nonempty()(#[trigger] words[i]) by {
        }
        crate::laws::pairing::lemma_kept_all(words, parse::nonempty());
    }
}

/// Each `--only` names one list of permitted arguments; without any, all are.
pub proof fn law_permitted_lists(options: Seq<(Seq<char>, Seq<char>)>)
    ensures
        ({
            let listed = options::values(options, "only"@);
            &&& listed.len() == 0 ==> parse::only_lists(options) is None
            &&& listed.len() > 0 ==> parse::only_lists(options) is Some && parse::only_lists(
                options,
            )->0.len() == listed.len() && forall|i: int|
                0 <= i < listed.len() ==> #[trigger] parse::only_lists(options)->0[i]
                    == parse::only_words(listed[i])
        }),
{
}

/// The words that name commands: their lengths and first letters tell them apart.
proof fn lemma_command_words()
    ensures
        "add"@.len() == 3 && "add"@[0] == 'a',
        "allow"@.len() == 5 && "allow"@[0] == 'a',
        "pair"@.len() == 4 && "pair"@[0] == 'p',
        "hands"@.len() == 5 && "hands"@[0] == 'h',
        "grants"@.len() == 6 && "grants"@[0] == 'g',
        "log"@.len() == 3 && "log"@[0] == 'l',
        "pending"@.len() == 7 && "pending"@[0] == 'p',
        "daemon"@.len() == 6 && "daemon"@[0] == 'd',
        "install"@.len() == 7 && "install"@[0] == 'i',
        "status"@.len() == 6 && "status"@[0] == 's',
        "remove"@.len() == 6 && "remove"@[0] == 'r',
        "deny"@.len() == 4 && "deny"@[0] == 'd',
        "request"@.len() == 7 && "request"@[0] == 'r',
        "job"@.len() == 3 && "job"@[0] == 'j',
        "storage"@.len() == 7 && "storage"@[0] == 's',
        "pin"@.len() == 3 && "pin"@[0] == 'p',
{
    reveal_strlit("add");
    reveal_strlit("allow");
    reveal_strlit("pair");
    reveal_strlit("hands");
    reveal_strlit("grants");
    reveal_strlit("log");
    reveal_strlit("pending");
    reveal_strlit("daemon");
    reveal_strlit("install");
    reveal_strlit("status");
    reveal_strlit("remove");
    reveal_strlit("deny");
    reveal_strlit("request");
    reveal_strlit("job");
    reveal_strlit("storage");
    reveal_strlit("pin");
}

/// A first word that is no option and names no destination is the command's.
proof fn lemma_command(program: Seq<char>, name: Seq<char>, rest: Seq<Seq<char>>)
    requires
        name.len() > 0,
        name[0] != '-',
        name[0] != '@',
    ensures
        parse::drafted(seq![program, name] + rest) == parse::worded_draft(
            seq![program, name] + rest,
            1,
            false,
        ),
{
    reveal_strlit("--no-wait");
    reveal_strlit("--");
    reveal_strlit("--help");
    reveal_strlit("-h");
    reveal_strlit("@");
    assert("--no-wait"@[0] == '-' && "--"@[0] == '-' && "--help"@[0] == '-' && "-h"@[0] == '-');
    let argv = seq![program, name] + rest;
    assert(argv[1] == name);
    if scan::begins(name, "@"@) {
        assert(name.take(1)[0] == name[0]);
        assert("@"@[0] == '@');
    }
    reveal_with_fuel(options::headed, 2);
}

/// A word within a group that is no option is the group's command.
proof fn lemma_group(tokens: Seq<Seq<char>>, at: int, shown: Seq<char>)
    requires
        0 <= at < tokens.len() <= usize::MAX,
        !options::dashed(tokens[at]),
    ensures
        parse::grouped(tokens, at, shown) is Ok,
        parse::grouped(tokens, at, shown)->Ok_0 == at,
{
    reveal_strlit("--no-wait");
    reveal_strlit("--help");
    reveal_strlit("-h");
    assert("--no-wait"@[0] == '-' && "--help"@[0] == '-' && "-h"@[0] == '-');
    assert("--no-wait"@.len() == 9 && "--help"@.len() == 6 && "-h"@.len() == 2);
    reveal_with_fuel(options::headed, 2);
}

/// `clix add`: the tool is the word, and the terms are what the options say.
pub proof fn law_add_is_read(
    program: Seq<char>,
    tool: Seq<char>,
    options: Seq<(Seq<char>, Seq<char>)>,
)
    requires
        !options::dashed(tool),
        all_writable(Context::Grant, options),
    ensures
        ({
            let result: Outcome<DraftModel> = parse::drafted(
                seq![program, "add"@, tool] + written(Context::Grant, options),
            );
            let terms: Outcome<GrantNarrowModel> = parse::narrowed(options, false, true);
            &&& terms is Err ==> result == Err::<DraftModel, ErrorModel>(terms->Err_0)
            &&& terms matches Ok(g) ==> {
                &&& result is Ok
                &&& result->Ok_0.until == g.until
                &&& result->Ok_0.cmd == (CmdModel::Add {
                    tool,
                    allow: g.allow,
                    once: g.once,
                    for_dur: g.for_dur,
                    until: None,
                    days: g.days,
                    dates: g.dates,
                    from: g.from,
                    to: g.to,
                    weekdays: g.weekdays,
                    args: parse::only_lists(options),
                })
            }
        }),
{
    let argv = seq![program, "add"@, tool] + written(Context::Grant, options);
    assert("add"@.len() == 3 && "add"@[0] == 'a') by {
        lemma_command_words();
    }
    lemma_grant_command(program, "add"@, tool, options);
    assert(parse::drafted(argv) == parse::add_draft(argv, 2)) by {
        lemma_command_words();
    }
}

/// A command with one word and the options of a grant.
proof fn lemma_grant_command(
    program: Seq<char>,
    name: Seq<char>,
    word: Seq<char>,
    options: Seq<(Seq<char>, Seq<char>)>,
)
    requires
        name.len() > 0,
        name[0] != '-',
        name[0] != '@',
        !options::dashed(word),
        all_writable(Context::Grant, options),
    ensures
        (seq![program, name, word] + written(Context::Grant, options))[1] == name,
        parse::drafted(seq![program, name, word] + written(Context::Grant, options))
            == parse::worded_draft(
            seq![program, name, word] + written(Context::Grant, options),
            1,
            false,
        ),
        options::matched(
            Context::Grant,
            seq![program, name, word] + written(Context::Grant, options),
            2,
        ) == Ok::<MatchedModel, ErrorModel>(MatchedModel { options, words: seq![word] }),
{
    let tail = written(Context::Grant, options);
    let argv = seq![program, name, word] + tail;
    let rest = seq![word] + tail;
    assert(seq![program, name] + rest =~= argv);
    assert(seq![program, name] + seq![word] + tail =~= argv);
    lemma_command(program, name, rest);
    assert forall|i: int| 0 <= i < seq![word].len() implies !options::dashed(
        #[trigger] seq![word][i],
    ) by {}
    law_written_is_read(Context::Grant, seq![program, name], seq![word], options);
}

/// `clix allow`: the request is the word, and the terms are what the options say, for
/// one run unless they ask for more. An approval limits no arguments.
pub proof fn law_allow_is_read(
    program: Seq<char>,
    id: Seq<char>,
    options: Seq<(Seq<char>, Seq<char>)>,
)
    requires
        !options::dashed(id),
        all_writable(Context::Grant, options),
    ensures
        ({
            let result: Outcome<DraftModel> = parse::drafted(
                seq![program, "allow"@, id] + written(Context::Grant, options),
            );
            let terms: Outcome<GrantNarrowModel> = parse::narrowed(options, true, false);
            &&& options::given(options, "only"@) || terms is Err ==> result is Err
            &&& !options::given(options, "only"@) && terms is Ok ==> {
                let g = terms->Ok_0;
                &&& result is Ok
                &&& result->Ok_0.until == g.until
                &&& result->Ok_0.cmd == (CmdModel::Allow {
                    request_id: id,
                    allow: g.allow,
                    once: g.once,
                    for_dur: g.for_dur,
                    until: None,
                    days: g.days,
                    dates: g.dates,
                    from: g.from,
                    to: g.to,
                    weekdays: g.weekdays,
                })
            }
        }),
{
    let argv = seq![program, "allow"@, id] + written(Context::Grant, options);
    assert("allow"@.len() == 5 && "allow"@[0] == 'a') by {
        lemma_command_words();
    }
    lemma_grant_command(program, "allow"@, id, options);
    assert(parse::drafted(argv) == parse::allow_draft(argv, 2)) by {
        lemma_command_words();
    }
}

/// A time of day that ends a grant becomes its end, and nothing else of the command
/// changes.
pub proof fn law_end_is_filled_in(draft: DraftModel, moments: Moments)
    ensures
        draft.until is None ==> parse::completed(draft, moments) == Ok::<CmdModel, ErrorModel>(
            draft.cmd,
        ),
        draft.until matches Some((t, _)) ==> (values::until_outcome(t, moments) matches Err(e)
            ==> parse::completed(draft, moments) == Err::<CmdModel, ErrorModel>(e)),
        draft.until matches Some((t, _)) ==> (values::until_outcome(t, moments) matches Ok(ends)
            ==> (draft.cmd matches CmdModel::Add {
            tool,
            allow,
            once,
            for_dur,
            until: _,
            days,
            dates,
            from,
            to,
            weekdays,
            args,
        } ==> parse::completed(draft, moments) == Ok::<CmdModel, ErrorModel>(
            CmdModel::Add {
                tool,
                allow,
                once,
                for_dur,
                until: Some(ends),
                days,
                dates,
                from,
                to,
                weekdays,
                args,
            },
        ))),
        draft.until matches Some((t, _)) ==> (values::until_outcome(t, moments) matches Ok(ends)
            ==> (draft.cmd matches CmdModel::Allow {
            request_id,
            allow,
            once,
            for_dur,
            until: _,
            days,
            dates,
            from,
            to,
            weekdays,
        } ==> parse::completed(draft, moments) == Ok::<CmdModel, ErrorModel>(
            CmdModel::Allow {
                request_id,
                allow,
                once,
                for_dur,
                until: Some(ends),
                days,
                dates,
                from,
                to,
                weekdays,
            },
        ))),
{
}

proof fn lemma_plain_words(head: Seq<Seq<char>>, words: Seq<Seq<char>>)
    requires
        forall|i: int| 0 <= i < words.len() ==> !options::dashed(#[trigger] words[i]),
    ensures
        options::matched(Context::Plain, head + words, head.len() as int) == Ok::<
            MatchedModel,
            ErrorModel,
        >(MatchedModel { options: Seq::empty(), words }),
        options::matched(Context::Output, head + words, head.len() as int) == Ok::<
            MatchedModel,
            ErrorModel,
        >(MatchedModel { options: Seq::empty(), words }),
        options::matched(Context::Pair, head + words, head.len() as int) == Ok::<
            MatchedModel,
            ErrorModel,
        >(MatchedModel { options: Seq::empty(), words }),
        options::matched(Context::Prune, head + words, head.len() as int) == Ok::<
            MatchedModel,
            ErrorModel,
        >(MatchedModel { options: Seq::empty(), words }),
        options::matched(Context::List, head + words, head.len() as int) == Ok::<
            MatchedModel,
            ErrorModel,
        >(MatchedModel { options: Seq::empty(), words }),
{
    let none = Seq::<(Seq<char>, Seq<char>)>::empty();
    assert(head + words + Seq::<Seq<char>>::empty() =~= head + words);
    law_written_is_read(Context::Plain, head, words, none);
    law_written_is_read(Context::Output, head, words, none);
    law_written_is_read(Context::Pair, head, words, none);
    law_written_is_read(Context::Prune, head, words, none);
    law_written_is_read(Context::List, head, words, none);
}

/// Commands of a word and what it acts on.
pub proof fn law_plain_commands(program: Seq<char>, a: Seq<char>, b: Seq<char>)
    requires
        !options::dashed(a),
        !options::dashed(b),
    ensures
        parse::drafted(seq![program, "remove"@, a]) == parse::settled(CmdModel::Remove { tool: a }),
        parse::drafted(seq![program, "deny"@, a]) == parse::settled(
            CmdModel::Deny { request_id: a },
        ),
        parse::drafted(seq![program, "request"@, a, b]) == parse::settled(
            CmdModel::Request { body: a, tool: b },
        ),
        parse::drafted(seq![program, "pair"@]) == parse::settled(
            CmdModel::Pair { phrase: None, name: None },
        ),
        parse::drafted(seq![program, "pair"@, a]) == parse::settled(
            CmdModel::Pair { phrase: Some(a), name: None },
        ),
        parse::drafted(seq![program, "hands"@]) == parse::settled(CmdModel::Hands),
        parse::drafted(seq![program, "grants"@]) == parse::settled(CmdModel::Hands),
        parse::drafted(seq![program, "log"@]) == parse::settled(CmdModel::Log),
        parse::drafted(seq![program, "pending"@]) == parse::settled(CmdModel::Pending),
        parse::drafted(seq![program, "daemon"@]) == parse::settled(CmdModel::Daemon),
        parse::drafted(seq![program, "install"@]) == parse::settled(CmdModel::Install),
        parse::drafted(seq![program, "status"@]) == parse::settled(CmdModel::Status),
        forall|cmd: CmdModel| #[trigger]
            parse::settled(cmd) == Ok::<DraftModel, ErrorModel>(DraftModel { cmd, until: None }),
{
    lemma_read_alone(program);
    lemma_read_listing(program);
    lemma_read_service(program);
    lemma_read_with_one(program, a);
    lemma_read_request(program, a, b);
}

proof fn lemma_read_alone(program: Seq<char>)
    ensures
        parse::drafted(seq![program, "pair"@]) == parse::settled(CmdModel::Pair { phrase: None, name: None }),
        parse::drafted(seq![program, "hands"@]) == parse::settled(CmdModel::Hands),
        parse::drafted(seq![program, "grants"@]) == parse::settled(CmdModel::Hands),
{
    lemma_command_words();
    assert(parse::drafted(seq![program, "pair"@]) == parse::settled(CmdModel::Pair { phrase: None, name: None })) by {
        lemma_bare(program, "pair"@);
    }
    assert(parse::drafted(seq![program, "hands"@]) == parse::settled(CmdModel::Hands)) by {
        lemma_bare(program, "hands"@);
    }
    assert(parse::drafted(seq![program, "grants"@]) == parse::settled(CmdModel::Hands)) by {
        lemma_bare(program, "grants"@);
    }
}

proof fn lemma_read_listing(program: Seq<char>)
    ensures
        parse::drafted(seq![program, "log"@]) == parse::settled(CmdModel::Log),
        parse::drafted(seq![program, "pending"@]) == parse::settled(CmdModel::Pending),
{
    lemma_command_words();
    assert(parse::drafted(seq![program, "log"@]) == parse::settled(CmdModel::Log)) by {
        lemma_bare(program, "log"@);
    }
    assert(parse::drafted(seq![program, "pending"@]) == parse::settled(CmdModel::Pending)) by {
        lemma_bare(program, "pending"@);
    }
}

proof fn lemma_read_service(program: Seq<char>)
    ensures
        parse::drafted(seq![program, "daemon"@]) == parse::settled(CmdModel::Daemon),
        parse::drafted(seq![program, "install"@]) == parse::settled(CmdModel::Install),
        parse::drafted(seq![program, "status"@]) == parse::settled(CmdModel::Status),
{
    lemma_command_words();
    assert(parse::drafted(seq![program, "daemon"@]) == parse::settled(CmdModel::Daemon)) by {
        lemma_bare(program, "daemon"@);
    }
    assert(parse::drafted(seq![program, "install"@]) == parse::settled(CmdModel::Install)) by {
        lemma_bare(program, "install"@);
    }
    assert(parse::drafted(seq![program, "status"@]) == parse::settled(CmdModel::Status)) by {
        lemma_bare(program, "status"@);
    }
}

proof fn lemma_read_with_one(program: Seq<char>, a: Seq<char>)
    requires
        !options::dashed(a),
    ensures
        parse::drafted(seq![program, "remove"@, a]) == parse::settled(CmdModel::Remove { tool: a }),
        parse::drafted(seq![program, "deny"@, a]) == parse::settled(CmdModel::Deny { request_id: a }),
        parse::drafted(seq![program, "pair"@, a]) == parse::settled(CmdModel::Pair { phrase: Some(a), name: None }),
{
    lemma_command_words();
    assert(parse::drafted(seq![program, "remove"@, a]) == parse::settled(CmdModel::Remove { tool: a })) by {
        lemma_of_one(program, "remove"@, a);
    }
    assert(parse::drafted(seq![program, "deny"@, a]) == parse::settled(CmdModel::Deny { request_id: a })) by {
        lemma_of_one(program, "deny"@, a);
    }
    assert(parse::drafted(seq![program, "pair"@, a]) == parse::settled(CmdModel::Pair { phrase: Some(a), name: None })) by {
        lemma_of_one(program, "pair"@, a);
    }
}

proof fn lemma_read_request(program: Seq<char>, a: Seq<char>, b: Seq<char>)
    requires
        !options::dashed(a),
        !options::dashed(b),
    ensures
        parse::drafted(seq![program, "request"@, a, b]) == parse::settled(
            CmdModel::Request { body: a, tool: b },
        ),
{
    lemma_command_words();
    assert(seq![program, "request"@] + seq![a, b] =~= seq![program, "request"@, a, b]);
    lemma_command(program, "request"@, seq![a, b]);
    lemma_plain_words(seq![program, "request"@], seq![a, b]);
}

/// A command without words.
proof fn lemma_bare(program: Seq<char>, name: Seq<char>)
    requires
        name.len() > 0,
        name[0] != '-',
        name[0] != '@',
    ensures
        parse::drafted(seq![program, name]) == parse::worded_draft(seq![program, name], 1, false),
        options::matched(Context::Plain, seq![program, name], 2) == Ok::<MatchedModel, ErrorModel>(
            MatchedModel { options: Seq::empty(), words: Seq::empty() },
        ),
        options::matched(Context::Pair, seq![program, name], 2) == Ok::<MatchedModel, ErrorModel>(
            MatchedModel { options: Seq::empty(), words: Seq::empty() },
        ),
{
    let none = Seq::<Seq<char>>::empty();
    assert(seq![program, name] + none =~= seq![program, name]);
    lemma_command(program, name, none);
    lemma_plain_words(seq![program, name], none);
}

/// A command with one word.
proof fn lemma_of_one(program: Seq<char>, name: Seq<char>, a: Seq<char>)
    requires
        name.len() > 0,
        name[0] != '-',
        name[0] != '@',
        !options::dashed(a),
    ensures
        parse::drafted(seq![program, name, a]) == parse::worded_draft(
            seq![program, name, a],
            1,
            false,
        ),
        options::matched(Context::Plain, seq![program, name, a], 2) == Ok::<
            MatchedModel,
            ErrorModel,
        >(MatchedModel { options: Seq::empty(), words: seq![a] }),
        options::matched(Context::Pair, seq![program, name, a], 2) == Ok::<
            MatchedModel,
            ErrorModel,
        >(MatchedModel { options: Seq::empty(), words: seq![a] }),
{
    assert(seq![program, name] + seq![a] =~= seq![program, name, a]);
    lemma_command(program, name, seq![a]);
    lemma_plain_words(seq![program, name], seq![a]);
}

/// A command of a group, up to its own words.
proof fn lemma_grouped(
    program: Seq<char>,
    group: Seq<char>,
    name: Seq<char>,
    rest: Seq<Seq<char>>,
    shown: Seq<char>,
)
    requires
        group.len() > 0,
        group[0] != '-',
        group[0] != '@',
        !options::dashed(name),
        rest.len() < 10,
    ensures
        (seq![program, group, name] + rest)[1] == group,
        (seq![program, group, name] + rest)[2] == name,
        parse::drafted(seq![program, group, name] + rest) == parse::worded_draft(
            seq![program, group, name] + rest,
            1,
            false,
        ),
        parse::grouped(seq![program, group, name] + rest, 2, shown) == Ok::<usize, ErrorModel>(
            2usize,
        ),
{
    let argv = seq![program, group, name] + rest;
    assert(seq![program, group] + (seq![name] + rest) =~= argv);
    lemma_command(program, group, seq![name] + rest);
    lemma_group(argv, 2, shown);
}

proof fn lemma_job_words()
    ensures
        "inspect"@.len() == 7 && "inspect"@[0] == 'i',
        "output"@.len() == 6 && "output"@[0] == 'o',
        "retry"@.len() == 5 && "retry"@[0] == 'r',
        "stderr"@.len() == 6 && "stderr"@[0] == 's',
        "no-wait"@.len() == 7,
        "help"@.len() == 4,
        !"stderr"@.contains('='),
{
    reveal_strlit("inspect");
    reveal_strlit("output");
    reveal_strlit("retry");
    reveal_strlit("stderr");
    reveal_strlit("no-wait");
    reveal_strlit("help");
}

proof fn lemma_job(program: Seq<char>, name: Seq<char>, rest: Seq<Seq<char>>)
    requires
        !options::dashed(name),
        rest.len() < 10,
    ensures
        (seq![program, "job"@, name] + rest)[2] == name,
        parse::drafted(seq![program, "job"@, name] + rest) == parse::job_draft(
            seq![program, "job"@, name] + rest,
            2,
        ),
        parse::grouped(
            seq![program, "job"@, name] + rest,
            2,
            "usage: clix job <inspect|output|retry> <job id>"@,
        ) == Ok::<usize, ErrorModel>(2usize),
{
    lemma_command_words();
    lemma_grouped(
        program,
        "job"@,
        name,
        rest,
        "usage: clix job <inspect|output|retry> <job id>"@,
    );
}

/// What is asked of a job concerns the job that is named, and its error output where
/// that is asked for.
pub proof fn law_job_commands(program: Seq<char>, id: Seq<char>)
    requires
        !options::dashed(id),
    ensures
        parse::drafted(seq![program, "job"@, "inspect"@, id]) == parse::settled(
            CmdModel::Job(JobCommandModel::Inspect { job_id: id }),
        ),
        parse::drafted(seq![program, "job"@, "retry"@, id]) == parse::settled(
            CmdModel::Job(JobCommandModel::Retry { job_id: id }),
        ),
        parse::drafted(seq![program, "job"@, "output"@, id]) == parse::settled(
            CmdModel::Job(JobCommandModel::Output { job_id: id, stderr: false }),
        ),
        parse::drafted(seq![program, "job"@, "output"@, id, "--"@ + "stderr"@]) == parse::settled(
            CmdModel::Job(JobCommandModel::Output { job_id: id, stderr: true }),
        ),
{
    lemma_job_inspect(program, id);
    lemma_job_retry(program, id);
    lemma_job_output(program, id);
    lemma_job_stderr(program, id);
}

proof fn lemma_job_inspect(program: Seq<char>, id: Seq<char>)
    requires
        !options::dashed(id),
    ensures
        parse::drafted(seq![program, "job"@, "inspect"@, id]) == parse::settled(
            CmdModel::Job(JobCommandModel::Inspect { job_id: id }),
        ),
{
    lemma_job_words();
    assert(seq![program, "job"@, "inspect"@] + seq![id] =~= seq![program, "job"@, "inspect"@, id]);
    lemma_job(program, "inspect"@, seq![id]);
    lemma_plain_words(seq![program, "job"@, "inspect"@], seq![id]);
}

proof fn lemma_job_retry(program: Seq<char>, id: Seq<char>)
    requires
        !options::dashed(id),
    ensures
        parse::drafted(seq![program, "job"@, "retry"@, id]) == parse::settled(
            CmdModel::Job(JobCommandModel::Retry { job_id: id }),
        ),
{
    lemma_job_words();
    assert(seq![program, "job"@, "retry"@] + seq![id] =~= seq![program, "job"@, "retry"@, id]);
    lemma_job(program, "retry"@, seq![id]);
    lemma_plain_words(seq![program, "job"@, "retry"@], seq![id]);
}

proof fn lemma_job_output(program: Seq<char>, id: Seq<char>)
    requires
        !options::dashed(id),
    ensures
        parse::drafted(seq![program, "job"@, "output"@, id]) == parse::settled(
            CmdModel::Job(JobCommandModel::Output { job_id: id, stderr: false }),
        ),
{
    lemma_job_words();
    assert(seq![program, "job"@, "output"@] + seq![id] =~= seq![program, "job"@, "output"@, id]);
    lemma_job(program, "output"@, seq![id]);
    lemma_plain_words(seq![program, "job"@, "output"@], seq![id]);
}

proof fn lemma_job_stderr(program: Seq<char>, id: Seq<char>)
    requires
        !options::dashed(id),
    ensures
        parse::drafted(seq![program, "job"@, "output"@, id, "--"@ + "stderr"@]) == parse::settled(
            CmdModel::Job(JobCommandModel::Output { job_id: id, stderr: true }),
        ),
{
    lemma_job_words();
    let option = ("stderr"@, ""@);
    let options = seq![option];
    let tail = seq!["--"@ + "stderr"@];
    let argv = seq![program, "job"@, "output"@, id, "--"@ + "stderr"@];
    assert(options::arity(Context::Output, "stderr"@) == Some(Arity::Flag));
    assert(options.skip(1) =~= Seq::<(Seq<char>, Seq<char>)>::empty());
    assert(written(Context::Output, options.skip(1)) =~= Seq::<Seq<char>>::empty());
    assert(written(Context::Output, options) =~= tail);
    assert(all_writable(Context::Output, options));
    assert(seq![program, "job"@, "output"@] + seq![id] + tail =~= argv);
    assert(seq![program, "job"@, "output"@] + (seq![id] + tail) =~= argv);
    lemma_job(program, "output"@, seq![id] + tail);
    law_written_is_read(Context::Output, seq![program, "job"@, "output"@], seq![id], options);
    assert(options[0].0 == "stderr"@);
}

proof fn lemma_storage(program: Seq<char>, name: Seq<char>, rest: Seq<Seq<char>>)
    requires
        !options::dashed(name),
        rest.len() < 10,
    ensures
        (seq![program, "storage"@, name] + rest)[2] == name,
        parse::drafted(seq![program, "storage"@, name] + rest) == parse::storage_draft(
            seq![program, "storage"@, name] + rest,
            2,
        ),
        parse::grouped(
            seq![program, "storage"@, name] + rest,
            2,
            "usage: clix storage <status|prune>"@,
        ) == Ok::<usize, ErrorModel>(2usize),
{
    lemma_command_words();
    lemma_grouped(program, "storage"@, name, rest, "usage: clix storage <status|prune>"@);
}

/// Pruning keeps the output of as many jobs as the owner says, and of none where
/// nothing is said.
pub proof fn law_storage_commands(program: Seq<char>, keep: usize)
    ensures
        parse::drafted(seq![program, "storage"@, "status"@]) == parse::settled(
            CmdModel::Storage(StorageCommandModel::Status),
        ),
        parse::drafted(seq![program, "storage"@, "prune"@]) == parse::settled(
            CmdModel::Storage(StorageCommandModel::Prune { keep_output_jobs: 0 }),
        ),
        parse::drafted(
            seq![
                program,
                "storage"@,
                "prune"@,
                "--"@ + "keep-output-jobs"@,
                text::decimal(keep as nat),
            ],
        ) == parse::settled(
            CmdModel::Storage(StorageCommandModel::Prune { keep_output_jobs: keep }),
        ),
{
    let none = Seq::<Seq<char>>::empty();
    lemma_storage_words();
    lemma_command_words();
    assert(parse::drafted(seq![program, "storage"@, "status"@]) == parse::settled(
        CmdModel::Storage(StorageCommandModel::Status),
    )) by {
        assert(seq![program, "storage"@, "status"@] + none =~= seq![
            program,
            "storage"@,
            "status"@,
        ]);
        lemma_storage(program, "status"@, none);
        lemma_plain_words(seq![program, "storage"@, "status"@], none);
    }
    assert(parse::drafted(seq![program, "storage"@, "prune"@]) == parse::settled(
        CmdModel::Storage(StorageCommandModel::Prune { keep_output_jobs: 0 }),
    )) by {
        assert(seq![program, "storage"@, "prune"@] + none =~= seq![program, "storage"@, "prune"@]);
        lemma_storage(program, "prune"@, none);
        lemma_plain_words(seq![program, "storage"@, "prune"@], none);
    }
    lemma_prune_keep(program, keep);
}

proof fn lemma_storage_words()
    ensures
        "prune"@.len() == 5 && "prune"@[0] == 'p',
        "keep-output-jobs"@.len() == 16 && "keep-output-jobs"@[0] == 'k',
        "no-wait"@.len() == 7,
        "help"@.len() == 4,
        !"keep-output-jobs"@.contains('='),
{
    reveal_strlit("prune");
    reveal_strlit("keep-output-jobs");
    reveal_strlit("no-wait");
    reveal_strlit("help");
}

proof fn lemma_prune_keep(program: Seq<char>, keep: usize)
    ensures
        parse::drafted(
            seq![
                program,
                "storage"@,
                "prune"@,
                "--"@ + "keep-output-jobs"@,
                text::decimal(keep as nat),
            ],
        ) == parse::settled(
            CmdModel::Storage(StorageCommandModel::Prune { keep_output_jobs: keep }),
        ),
{
    lemma_storage_words();
    let none = Seq::<Seq<char>>::empty();
    assert("status"@.len() == 6) by {
        lemma_command_words();
    }
    texts::law_number_is_read_back(keep as nat);
    let digits = text::decimal(keep as nat);
    assert('0' <= digits[0] <= '9');
    let option = ("keep-output-jobs"@, digits);
    let options = seq![option];
    let tail = seq!["--"@ + "keep-output-jobs"@, digits];
    let argv = seq![program, "storage"@, "prune"@, "--"@ + "keep-output-jobs"@, digits];
    assert(options::arity(Context::Prune, "keep-output-jobs"@) == Some(Arity::Single));
    assert(options.skip(1) =~= Seq::<(Seq<char>, Seq<char>)>::empty());
    assert(written(Context::Prune, options.skip(1)) =~= none);
    assert(written(Context::Prune, options) =~= tail);
    assert(all_writable(Context::Prune, options));
    assert(seq![program, "storage"@, "prune"@] + none + tail =~= argv);
    assert(seq![program, "storage"@, "prune"@] + tail =~= argv);
    lemma_storage(program, "prune"@, tail);
    law_written_is_read(Context::Prune, seq![program, "storage"@, "prune"@], none, options);
    let before = Seq::<(Seq<char>, Seq<char>)>::empty();
    assert(before.push(option) =~= options);
    law_option_values(before, option.0, digits, option.0);
    assert(options::values(before, option.0) =~= none);
    assert(options::values(options, option.0)[0] == digits);
}

proof fn lemma_pin_words()
    ensures
        "on"@.len() == 2 && "on"@[0] == 'o',
        "off"@.len() == 3 && "off"@[0] == 'o',
        "sync"@.len() == 4 && "sync"@[0] == 's',
        "conflicts"@.len() == 9 && "conflicts"@[0] == 'c',
        "take-peer"@.len() == 9 && "take-peer"@[0] == 't',
        "recovery"@.len() == 8 && "recovery"@[0] == 'r',
        "token"@.len() == 5 && !"token"@.contains('='),
        "no-wait"@.len() == 7,
        "help"@.len() == 4,
{
    reveal_strlit("on");
    reveal_strlit("off");
    reveal_strlit("sync");
    reveal_strlit("conflicts");
    reveal_strlit("take-peer");
    reveal_strlit("recovery");
    reveal_strlit("token");
    reveal_strlit("no-wait");
    reveal_strlit("help");
}

proof fn lemma_pin(program: Seq<char>, name: Seq<char>, rest: Seq<Seq<char>>)
    requires
        !options::dashed(name),
        rest.len() < 10,
    ensures
        (seq![program, "pin"@, name] + rest)[2] == name,
        parse::drafted(seq![program, "pin"@, name] + rest) == parse::pin_draft(
            seq![program, "pin"@, name] + rest,
            2,
        ),
        parse::grouped(
            seq![program, "pin"@, name] + rest,
            2,
            "usage: clix pin <on|off|sync|conflicts|take-peer|recovery>"@,
        ) == Ok::<usize, ErrorModel>(2usize),
{
    lemma_command_words();
    lemma_grouped(
        program,
        "pin"@,
        name,
        rest,
        "usage: clix pin <on|off|sync|conflicts|take-peer|recovery>"@,
    );
}

proof fn lemma_pin_on(program: Seq<char>)
    ensures
        parse::drafted(seq![program, "pin"@, "on"@]) == parse::settled(CmdModel::Pin(PinCommandModel::On)),
{
    lemma_pin_words();
    let words = Seq::<Seq<char>>::empty();
    assert(seq![program, "pin"@, "on"@] + words =~= seq![program, "pin"@, "on"@]);
    lemma_pin(program, "on"@, words);
    lemma_plain_words(seq![program, "pin"@, "on"@], words);
}

proof fn lemma_pin_off(program: Seq<char>)
    ensures
        parse::drafted(seq![program, "pin"@, "off"@]) == parse::settled(CmdModel::Pin(PinCommandModel::Off)),
{
    lemma_pin_words();
    let words = Seq::<Seq<char>>::empty();
    assert(seq![program, "pin"@, "off"@] + words =~= seq![program, "pin"@, "off"@]);
    lemma_pin(program, "off"@, words);
    lemma_plain_words(seq![program, "pin"@, "off"@], words);
}

proof fn lemma_pin_sync(program: Seq<char>, a: Seq<char>)
    requires
        !options::dashed(a),
    ensures
        parse::drafted(seq![program, "pin"@, "sync"@, a]) == parse::settled(CmdModel::Pin(PinCommandModel::Sync { body: a })),
{
    lemma_pin_words();
    let words = seq![a];
    assert(seq![program, "pin"@, "sync"@] + words =~= seq![program, "pin"@, "sync"@, a]);
    lemma_pin(program, "sync"@, words);
    lemma_plain_words(seq![program, "pin"@, "sync"@], words);
}

proof fn lemma_pin_conflicts(program: Seq<char>, a: Seq<char>)
    requires
        !options::dashed(a),
    ensures
        parse::drafted(seq![program, "pin"@, "conflicts"@, a]) == parse::settled(CmdModel::Pin(PinCommandModel::Conflicts { body: a })),
{
    lemma_pin_words();
    let words = seq![a];
    assert(seq![program, "pin"@, "conflicts"@] + words =~= seq![program, "pin"@, "conflicts"@, a]);
    lemma_pin(program, "conflicts"@, words);
    lemma_plain_words(seq![program, "pin"@, "conflicts"@], words);
}

/// Words with the token that goes with them.
proof fn lemma_tokened(head: Seq<Seq<char>>, words: Seq<Seq<char>>, token: Seq<char>, shown: Seq<char>)
    requires
        forall|i: int| 0 <= i < words.len() ==> !options::dashed(#[trigger] words[i]),
        !options::dashed(token),
    ensures
        parse::tokened(
            head + words + seq!["--"@ + "token"@, token],
            head.len() as int,
            words.len(),
            shown,
        ) == Ok::<(Seq<Seq<char>>, Seq<char>), ErrorModel>((words, token)),
{
    lemma_pin_words();
    let option = ("token"@, token);
    let options = seq![option];
    let tail = seq!["--"@ + "token"@, token];
    assert(options::arity(Context::Token, "token"@) == Some(Arity::Single));
    assert(options.skip(1) =~= Seq::<(Seq<char>, Seq<char>)>::empty());
    assert(written(Context::Token, options.skip(1)) =~= Seq::<Seq<char>>::empty());
    assert(written(Context::Token, options) =~= tail);
    assert(all_writable(Context::Token, options));
    law_written_is_read(Context::Token, head, words, options);
    let before = Seq::<(Seq<char>, Seq<char>)>::empty();
    assert(before.push(option) =~= options);
    law_option_values(before, option.0, token, option.0);
    assert(options::values(before, option.0) =~= Seq::<Seq<char>>::empty());
    assert(options::values(options, option.0)[0] == token);
}

proof fn lemma_take_peer(program: Seq<char>, a: Seq<char>, b: Seq<char>, token: Seq<char>)
    requires
        !options::dashed(a),
        !options::dashed(b),
        !options::dashed(token),
    ensures
        parse::drafted(
            seq![program, "pin"@, "take-peer"@, a, b, "--"@ + "token"@, token],
        ) == parse::settled(CmdModel::Pin(PinCommandModel::TakePeer { body: a, path: b, token })),
{
    lemma_pin_words();
    let head = seq![program, "pin"@, "take-peer"@];
    let tail = seq!["--"@ + "token"@, token];
    let argv = seq![program, "pin"@, "take-peer"@, a, b, "--"@ + "token"@, token];
    assert(head + seq![a, b] + tail =~= argv);
    assert(head + (seq![a, b] + tail) =~= argv);
    lemma_pin(program, "take-peer"@, seq![a, b] + tail);
    lemma_tokened(
        head,
        seq![a, b],
        token,
        "usage: clix pin take-peer <machine> <path> --token <token>"@,
    );
}

/// What is asked of a shared directory: on and off, and what concerns one machine and
/// one path names them, with the token of what was inspected.
pub proof fn law_pin_commands(program: Seq<char>, a: Seq<char>, b: Seq<char>, token: Seq<char>)
    requires
        !options::dashed(a),
        !options::dashed(b),
        !options::dashed(token),
    ensures
        parse::drafted(seq![program, "pin"@, "on"@]) == parse::settled(
            CmdModel::Pin(PinCommandModel::On),
        ),
        parse::drafted(seq![program, "pin"@, "off"@]) == parse::settled(
            CmdModel::Pin(PinCommandModel::Off),
        ),
        parse::drafted(seq![program, "pin"@, "sync"@, a]) == parse::settled(
            CmdModel::Pin(PinCommandModel::Sync { body: a }),
        ),
        parse::drafted(seq![program, "pin"@, "conflicts"@, a]) == parse::settled(
            CmdModel::Pin(PinCommandModel::Conflicts { body: a }),
        ),
        parse::drafted(
            seq![program, "pin"@, "take-peer"@, a, b, "--"@ + "token"@, token],
        ) == parse::settled(CmdModel::Pin(PinCommandModel::TakePeer { body: a, path: b, token })),
{
    lemma_pin_on(program);
    lemma_pin_off(program);
    lemma_pin_sync(program, a);
    lemma_pin_conflicts(program, a);
    lemma_take_peer(program, a, b, token);
}

proof fn lemma_recovery_words()
    ensures
        "list"@.len() == 4 && "list"@[0] == 'l',
        "inspect"@.len() == 7 && "inspect"@[0] == 'i',
        "export"@.len() == 6 && "export"@[0] == 'e',
        "resolve"@.len() == 7 && "resolve"@[0] == 'r',
        "discard"@.len() == 7 && "discard"@[0] == 'd',
{
    reveal_strlit("list");
    reveal_strlit("inspect");
    reveal_strlit("export");
    reveal_strlit("resolve");
    reveal_strlit("discard");
}

/// What is asked of retained versions names the version by its ID. A choice or a
/// version is one of those there are, and comes with the token of what was inspected.
pub proof fn law_recovery_commands(
    head: Seq<Seq<char>>,
    id: Seq<char>,
    what: Seq<char>,
    token: Seq<char>,
)
    requires
        head.len() < 10,
        !options::dashed(id),
        !options::dashed(what),
        !options::dashed(token),
    ensures
        ({
            let at = head.len() as int;
            let tail = seq!["--"@ + "token"@, token];
            &&& parse::recovery_outcome(head + seq!["list"@], at) == Ok::<
                RecoveryCommandModel,
                ErrorModel,
            >(RecoveryCommandModel::List { after: None })
            &&& parse::recovery_outcome(head + seq!["inspect"@, id], at) == Ok::<
                RecoveryCommandModel,
                ErrorModel,
            >(RecoveryCommandModel::Inspect { id })
            &&& parse::recovery_outcome(head + seq!["export"@, id, what] + tail, at) == if what
                == "receipt"@ || what == "live"@ || what == "retained"@ {
                Ok::<RecoveryCommandModel, ErrorModel>(
                    RecoveryCommandModel::Export { id, version: what, token },
                )
            } else {
                Err::<RecoveryCommandModel, ErrorModel>(
                    ErrorModel::Usage(
                        "invalid value '"@ + what + "' [possible values: "@
                            + "receipt, live, retained"@ + "]"@,
                    ),
                )
            }
            &&& parse::recovery_outcome(head + seq!["resolve"@, id, what] + tail, at) == if what
                == "keep-live"@ || what == "restore-retained"@ {
                Ok::<RecoveryCommandModel, ErrorModel>(
                    RecoveryCommandModel::Resolve { id, choice: what, token },
                )
            } else {
                Err::<RecoveryCommandModel, ErrorModel>(
                    ErrorModel::Usage(
                        "invalid value '"@ + what + "' [possible values: "@
                            + "keep-live, restore-retained"@ + "]"@,
                    ),
                )
            }
            &&& parse::recovery_outcome(head + seq!["discard"@, id] + tail, at) == Ok::<
                RecoveryCommandModel,
                ErrorModel,
            >(RecoveryCommandModel::Discard { id, token })
        }),
{
    lemma_recovery_words();
    lemma_recovery_list(head);
    lemma_recovery_inspect(head, id);
    lemma_recovery_export(head, id, what, token);
    lemma_recovery_resolve(head, id, what, token);
    lemma_recovery_discard(head, id, token);
}

proof fn lemma_recovery_list(head: Seq<Seq<char>>)
    requires
        head.len() < 10,
    ensures
        parse::recovery_outcome(head + seq!["list"@], head.len() as int) == Ok::<
            RecoveryCommandModel,
            ErrorModel,
        >(RecoveryCommandModel::List { after: None }),
{
    lemma_recovery_words();
    let none = Seq::<Seq<char>>::empty();
    let argv = head + seq!["list"@];
    assert(argv[head.len() as int] == "list"@);
    lemma_group(argv, head.len() as int, "usage: clix pin recovery <list|inspect|export|resolve|discard>"@);
    assert(argv + none =~= argv);
    lemma_plain_words(argv, none);
    assert(options::values(Seq::empty(), "after"@) =~= none);
}

proof fn lemma_recovery_inspect(head: Seq<Seq<char>>, id: Seq<char>)
    requires
        head.len() < 10,
        !options::dashed(id),
    ensures
        parse::recovery_outcome(head + seq!["inspect"@, id], head.len() as int) == Ok::<
            RecoveryCommandModel,
            ErrorModel,
        >(RecoveryCommandModel::Inspect { id }),
{
    lemma_recovery_words();
    let argv = head + seq!["inspect"@, id];
    assert(argv[head.len() as int] == "inspect"@);
    lemma_group(argv, head.len() as int, "usage: clix pin recovery <list|inspect|export|resolve|discard>"@);
    assert(head + seq!["inspect"@] + seq![id] =~= argv);
    lemma_plain_words(head + seq!["inspect"@], seq![id]);
}

proof fn lemma_recovery_export(
    head: Seq<Seq<char>>,
    id: Seq<char>,
    what: Seq<char>,
    token: Seq<char>,
)
    requires
        head.len() < 10,
        !options::dashed(id),
        !options::dashed(what),
        !options::dashed(token),
    ensures
        parse::recovery_outcome(
            head + seq!["export"@, id, what] + seq!["--"@ + "token"@, token],
            head.len() as int,
        ) == if what == "receipt"@ || what == "live"@ || what == "retained"@ {
            Ok::<RecoveryCommandModel, ErrorModel>(
                RecoveryCommandModel::Export { id, version: what, token },
            )
        } else {
            Err::<RecoveryCommandModel, ErrorModel>(
                parse::invalid_choice(what, "receipt, live, retained"@),
            )
        },
{
    lemma_recovery_words();
    let tail = seq!["--"@ + "token"@, token];
    let argv = head + seq!["export"@, id, what] + tail;
    assert(argv[head.len() as int] == "export"@);
    lemma_group(argv, head.len() as int, "usage: clix pin recovery <list|inspect|export|resolve|discard>"@);
    assert(head + seq!["export"@] + seq![id, what] + tail =~= argv);
    lemma_tokened(
        head + seq!["export"@],
        seq![id, what],
        token,
        "usage: clix pin recovery export <id> <version> --token <token>"@,
    );
}

proof fn lemma_recovery_resolve(
    head: Seq<Seq<char>>,
    id: Seq<char>,
    what: Seq<char>,
    token: Seq<char>,
)
    requires
        head.len() < 10,
        !options::dashed(id),
        !options::dashed(what),
        !options::dashed(token),
    ensures
        parse::recovery_outcome(
            head + seq!["resolve"@, id, what] + seq!["--"@ + "token"@, token],
            head.len() as int,
        ) == if what == "keep-live"@ || what == "restore-retained"@ {
            Ok::<RecoveryCommandModel, ErrorModel>(
                RecoveryCommandModel::Resolve { id, choice: what, token },
            )
        } else {
            Err::<RecoveryCommandModel, ErrorModel>(
                parse::invalid_choice(what, "keep-live, restore-retained"@),
            )
        },
{
    lemma_recovery_words();
    let tail = seq!["--"@ + "token"@, token];
    let argv = head + seq!["resolve"@, id, what] + tail;
    assert(argv[head.len() as int] == "resolve"@);
    lemma_group(argv, head.len() as int, "usage: clix pin recovery <list|inspect|export|resolve|discard>"@);
    assert(head + seq!["resolve"@] + seq![id, what] + tail =~= argv);
    lemma_tokened(
        head + seq!["resolve"@],
        seq![id, what],
        token,
        "usage: clix pin recovery resolve <id> <choice> --token <token>"@,
    );
}

proof fn lemma_recovery_discard(head: Seq<Seq<char>>, id: Seq<char>, token: Seq<char>)
    requires
        head.len() < 10,
        !options::dashed(id),
        !options::dashed(token),
    ensures
        parse::recovery_outcome(
            head + seq!["discard"@, id] + seq!["--"@ + "token"@, token],
            head.len() as int,
        ) == Ok::<RecoveryCommandModel, ErrorModel>(RecoveryCommandModel::Discard { id, token }),
{
    lemma_recovery_words();
    let tail = seq!["--"@ + "token"@, token];
    let argv = head + seq!["discard"@, id] + tail;
    assert(argv[head.len() as int] == "discard"@);
    lemma_group(argv, head.len() as int, "usage: clix pin recovery <list|inspect|export|resolve|discard>"@);
    assert(head + seq!["discard"@] + seq![id] + tail =~= argv);
    lemma_tokened(
        head + seq!["discard"@],
        seq![id],
        token,
        "usage: clix pin recovery discard <id> --token <token>"@,
    );
}

} // verus!
