//! The command line: the ways to write one run agree, and a run's arguments are
//! the tool's own.

use vstd::prelude::*;

use crate::cli::command::CmdModel;
use crate::cli::options;
use crate::cli::parse;
use crate::cli::parse::DraftModel;
use crate::error::Outcome;
use crate::pair;
use crate::scan;

verus! {

pub open spec fn run(body: Seq<char>, argv: Seq<Seq<char>>, no_wait: bool) -> Outcome<DraftModel> {
    parse::settled(CmdModel::Exec { body, argv, no_wait })
}

/// Words that no machine's name can be.
proof fn lemma_not_a_name(name: Seq<char>)
    requires
        pair::valid_name(name),
    ensures
        name != "--no-wait"@,
        name != "--"@,
        name != "--help"@,
        name != "-h"@,
        !scan::begins(name, "@"@),
        name[0] != '-',
{
    reveal_strlit("--no-wait");
    reveal_strlit("--");
    reveal_strlit("--help");
    reveal_strlit("-h");
    reveal_strlit("@");
    assert("--no-wait"@[0] == '-');
    assert("--"@[0] == '-');
    assert("--help"@[0] == '-');
    assert("-h"@[0] == '-');
    if scan::begins(name, "@"@) {
        assert(name.take(1)[0] == name[0]);
    }
}

/// A machine that is named outright gets the run, with the arguments as they
/// stand, even where its name is also a command.
pub proof fn law_destination_is_explicit(
    program: Seq<char>,
    body: Seq<char>,
    argv: Seq<Seq<char>>,
)
    requires
        pair::valid_name(body),
        argv.len() > 0,
        argv[0] != "--no-wait"@,
    ensures
        parse::drafted(seq![program, "--"@, body] + argv) == run(body, argv, false),
        parse::drafted(seq![program, "@"@ + body] + argv) == run(body, argv, false),
        parse::drafted(seq![program, "--no-wait"@, "--"@, body] + argv) == run(body, argv, true),
        parse::drafted(seq![program, "--no-wait"@, "@"@ + body] + argv) == run(body, argv, true),
        parse::drafted(seq![program, "@"@ + body, "--no-wait"@] + argv) == run(body, argv, true),
{
    lemma_not_a_name(body);
    reveal_strlit("--no-wait");
    reveal_strlit("--");
    reveal_strlit("@");
    let at = "@"@ + body;
    assert(at[0] == '@');
    assert("--no-wait"@[0] == '-' && "--"@[0] == '-');
    assert("--no-wait"@.len() == 9 && "--"@.len() == 2);
    assert(at.take(1) =~= "@"@);
    assert(at.skip(1) =~= body);

    let a = seq![program, "--"@, body] + argv;
    assert(a[1] == "--"@);
    assert(a.skip(2) =~= seq![body] + argv);
    assert((seq![body] + argv).skip(1) =~= argv);

    let b = seq![program, at] + argv;
    assert(b[1] == at);
    assert(b.skip(2) =~= argv);
    let whole = seq![at.skip(1)] + argv;
    assert(whole =~= seq![body] + argv);
    assert(whole[0] == body && whole[1] == argv[0]);

    let c = seq![program, "--no-wait"@, "--"@, body] + argv;
    assert(c[1] == "--no-wait"@ && c[2] == "--"@);
    assert(c.skip(3) =~= seq![body] + argv);

    let d = seq![program, "--no-wait"@, at] + argv;
    assert(d[1] == "--no-wait"@ && d[2] == at);
    assert(d.skip(3) =~= argv);

    let e = seq![program, at, "--no-wait"@] + argv;
    assert(e[1] == at);
    assert(e.skip(2) =~= seq!["--no-wait"@] + argv);
    let parts = seq![at.skip(1)] + (seq!["--no-wait"@] + argv);
    assert(parts[0] == body && parts[1] == "--no-wait"@);
    assert(parts.remove(1) =~= seq![body] + argv);
}

/// A name that a pairing accepts can simply be written: it is read as the
/// machine, and the rest as the tool and its arguments.
pub proof fn law_paired_name_is_no_command(
    program: Seq<char>,
    body: Seq<char>,
    argv: Seq<Seq<char>>,
)
    requires
        pair::new_name_outcome(body) is Ok,
        argv.len() > 0,
        argv[0] != "--no-wait"@,
    ensures
        parse::drafted(seq![program, body] + argv) == run(body, argv, false),
        parse::drafted(seq![program, "--no-wait"@, body] + argv) == run(body, argv, true),
        parse::drafted(seq![program, body, "--no-wait"@] + argv) == run(body, argv, true),
{
    lemma_not_a_name(body);
    reveal_strlit("--no-wait");
    assert("--no-wait"@[0] == '-');
    assert("--no-wait"@.len() == 9);
    reveal_with_fuel(options::headed, 3);

    let a = seq![program, body] + argv;
    assert(a[1] == body);
    assert(a.skip(1) =~= seq![body] + argv);
    assert((seq![body] + argv)[1] == argv[0]);
    assert((seq![body] + argv).skip(1) =~= argv);

    let b = seq![program, "--no-wait"@, body] + argv;
    assert(b[1] == "--no-wait"@ && b[2] == body);
    assert(b.skip(2) =~= seq![body] + argv);

    let c = seq![program, body, "--no-wait"@] + argv;
    assert(c[1] == body && c[2] == "--no-wait"@);
    let parts = c.skip(1);
    assert(parts[0] == body && parts[1] == "--no-wait"@);
    assert(parts.remove(1) =~= seq![body] + argv);
}

} // verus!
