//! Words and bytes as others see them: lines about jobs and grants, identifiers,
//! labels, and what opens a connection.

use vstd::prelude::*;

use crate::cli::options;
use crate::cli::parse;
use crate::error::ErrorModel;
use crate::exec;
use crate::grant;
use crate::job;
use crate::json;
use crate::laws::texts;
use crate::limits;
use crate::mesh;
use crate::mesh::Preface;
use crate::pin::recovery;
use crate::pin::sync;
use crate::search;
use crate::storage;
use crate::store::StoreModel;
use crate::table;
use crate::text;
use crate::transport;
use crate::tray;
use crate::types::{GrantModel, JobModel, JobStatusModel, RequestModel};

verus! {

proof fn lemma_spaced(words: Seq<Seq<char>>)
    ensures
        job::spaced(words) == texts::rejoined(words, ' '),
    decreases words.len(),
{
    reveal_strlit("");
    reveal_strlit(" ");
    if words.len() > 1 {
        lemma_spaced(words.drop_last());
        let head = texts::rejoined(words.drop_last(), ' ');
        assert(head + " "@ =~= head.push(' '));
    } else if words.len() == 0 {
        assert(job::spaced(words) =~= texts::rejoined(words, ' '));
    }
}

/// Words without spaces can be read off the line that they stand in.
pub proof fn law_spaced_words(words: Seq<Seq<char>>)
    requires
        words.len() > 0,
        forall|i: int| 0 <= i < words.len() ==> !(#[trigger] words[i]).contains(' '),
    ensures
        text::pieces(job::spaced(words), ' ') == words,
{
    lemma_spaced(words);
    texts::law_joined_texts_are_the_pieces(words, ' ');
}

/// A status in words tells how a job ended: its exit code, or the reason why it did not
/// run to its end.
pub proof fn law_status_in_words(exit: i32, reason: Seq<char>)
    ensures
        exit >= 0 ==> job::status_words(JobStatusModel::Done { exit }) == "exit "@ + text::decimal(
            exit as nat,
        ),
        exit < 0 ==> job::status_words(JobStatusModel::Done { exit }) == "exit "@ + ("-"@
            + text::decimal((-exit) as nat)),
        job::status_words(JobStatusModel::Denied { reason }) == "denied: "@ + reason,
        job::status_words(JobStatusModel::Failed { reason }) == "failed: "@ + reason,
        job::status_words(JobStatusModel::Uncertain { reason }) == "uncertain: "@ + reason,
        job::status_words(JobStatusModel::WaitingBody) == "waiting"@,
        job::status_words(JobStatusModel::WaitingCapacity) == "waiting for capacity"@,
        job::status_words(JobStatusModel::Running) == "running"@,
        job::status_words(JobStatusModel::Queued) == "queued"@,
{
}

/// A new identifier keeps its random bytes, but for the six bits that mark it as a
/// random one of its kind.
pub proof fn law_identifiers(random: Seq<u8>, i: int)
    requires
        random.len() == 16,
    ensures
        ({
            let b = job::uuid_bytes(random);
            &&& b.len() == 16
            &&& 0 <= i < 16 && i != 6 && i != 8 ==> b[i] == random[i]
            &&& b[6] / 16 == 4 && b[6] % 16 == random[6] % 16
            &&& b[8] / 64 == 2 && b[8] % 64 == random[8] % 64
        }),
        job::uuid_text(random).len() == 36,
        job::uuid_text(random)[8] == '-',
        job::uuid_text(random)[13] == '-',
        job::uuid_text(random)[18] == '-',
        job::uuid_text(random)[23] == '-',
        job::uuid_text(random)[14] == '4',
        0 <= i < 4 ==> job::uuid_text(random)[2 * i] == text::hex_digit(random[i] as int / 16)
            && job::uuid_text(random)[2 * i + 1] == text::hex_digit(random[i] as int % 16),
        10 <= i < 16 ==> job::uuid_text(random)[2 * i + 4] == text::hex_digit(random[i] as int / 16)
            && job::uuid_text(random)[2 * i + 5] == text::hex_digit(random[i] as int % 16),
{
    reveal_strlit("-");
    let b = job::uuid_bytes(random);
    let a1 = text::hex(b.subrange(0, 4)) + "-"@;
    let a2 = a1 + text::hex(b.subrange(4, 6)) + "-"@;
    let a3 = a2 + text::hex(b.subrange(6, 8)) + "-"@;
    let a4 = a3 + text::hex(b.subrange(8, 10)) + "-"@;
    assert(a1.len() == 9 && a2.len() == 14 && a3.len() == 19 && a4.len() == 24);
    assert(b[6] as int / 16 == 4);
    assert(job::uuid_text(random)[14] == text::hex(b.subrange(6, 8))[0]);
    assert(b.subrange(6, 8)[0] == b[6]);
    if 0 <= i < 4 {
        assert(b.subrange(0, 4)[i] == random[i]);
        assert((2 * i) / 2 == i && (2 * i + 1) / 2 == i);
        assert(job::uuid_text(random)[2 * i] == text::hex(b.subrange(0, 4))[2 * i]);
        assert(job::uuid_text(random)[2 * i + 1] == text::hex(b.subrange(0, 4))[2 * i + 1]);
    }
    if 10 <= i < 16 {
        let k = i - 10;
        assert(b.subrange(10, 16)[k] == random[i]);
        assert((2 * k) / 2 == k && (2 * k + 1) / 2 == k);
        assert(job::uuid_text(random)[2 * i + 4] == text::hex(b.subrange(10, 16))[2 * k]);
        assert(job::uuid_text(random)[2 * i + 5] == text::hex(b.subrange(10, 16))[2 * k + 1]);
    }
}

/// The line about a grant names its tool and whom it serves, and says of it what is
/// true of it: that it serves once, until when, by a schedule, or that it is in use.
pub proof fn law_grant_in_words(g: GrantModel, when: Seq<char>)
    ensures
        ({
            let whom = match g.allow_from {
                None => "all machines"@,
                Some(bodies) => if bodies.len() == 0 {
                    "no machines"@
                } else {
                    grant::comma_names(bodies)
                },
            };
            let base = g.tool + "  → "@ + whom;
            let plain = !g.once && g.until is None && g.schedule is None && g.reservation is None;
            &&& plain ==> grant::described(g, when) == base
            &&& g.once && g.until is None && g.schedule is None && g.reservation is None
                ==> grant::described(g, when) == base + "  once"@
            &&& !g.once && g.until is None && g.schedule is Some && g.reservation is None
                ==> grant::described(g, when) == base + "  schedule"@
            &&& !g.once && g.until is None && g.schedule is None && g.reservation is Some
                ==> grant::described(g, when) == base + "  [reserved for a running job]"@
            &&& !g.once && g.until is Some && g.schedule is None && g.reservation is None
                && g.until->0.secs >= 0 ==> grant::described(g, when) == base + "  until "@ + when
                + " ("@ + text::decimal(g.until->0.secs as nat) + ")"@
        }),
        forall|bodies: Seq<Seq<char>>, name: Seq<char>|
            bodies.len() > 0 ==> #[trigger] grant::comma_names(bodies.push(name))
                == grant::comma_names(bodies) + ", "@ + name,
{
    assert forall|bodies: Seq<Seq<char>>, name: Seq<char>|
        bodies.len() > 0 implies #[trigger] grant::comma_names(bodies.push(name))
        == grant::comma_names(bodies) + ", "@ + name by {
        assert(bodies.push(name).drop_last() =~= bodies);
    }
}

/// Only the tool that a grant is for may be run under it.
pub proof fn law_argv_is_the_tool(g: GrantModel, argv: Seq<Seq<char>>)
    ensures
        exec::argv_outcome(g, argv) is Ok <==> argv.len() > 0 && argv[0] == g.tool,
{
}

/// The tray's labels name the tool, and the machine that wants it; an underscore is
/// written twice.
pub proof fn law_labels(r: RequestModel, g: GrantModel)
    ensures
        !(r.from + " wants "@ + r.tool).contains('_') ==> tray::request_label(r) == r.from
            + " wants "@ + r.tool,
        !g.tool.contains('_') ==> tray::grant_label(g) == g.tool,
        forall|name: Seq<char>| #[trigger]
            crate::scan::replaced(name.push('_'), '_', "__"@) == crate::scan::replaced(
                name,
                '_',
                "__"@,
            ) + "__"@,
{
    lemma_not_replaced(r.from + " wants "@ + r.tool);
    lemma_not_replaced(g.tool);
    assert forall|name: Seq<char>| #[trigger]
        crate::scan::replaced(name.push('_'), '_', "__"@) == crate::scan::replaced(
            name,
            '_',
            "__"@,
        ) + "__"@ by {
        assert(name.push('_').drop_last() =~= name);
    }
}

proof fn lemma_not_replaced(s: Seq<char>)
    ensures
        !s.contains('_') ==> crate::scan::replaced(s, '_', "__"@) == s,
    decreases s.len(),
{
    if s.len() > 0 && !s.contains('_') {
        let rest = s.drop_last();
        if rest.contains('_') {
            let i = choose|i: int| 0 <= i < rest.len() && rest[i] == '_';
            assert(s[i] == '_');
        }
        lemma_not_replaced(rest);
        assert(s.last() == s[s.len() - 1]);
        assert(rest.push(s.last()) =~= s);
        assert(rest + seq![s.last()] =~= s);
    } else if s.len() == 0 {
        assert(crate::scan::replaced(s, '_', "__"@) =~= s);
    }
}

/// The tray's icon: four bytes for each dot, coloured within the frame and clear
/// outside of it.
pub proof fn law_icon(n: nat, k: int)
    requires
        0 <= k < n,
    ensures
        tray::pixels(n).len() == 4 * n,
        ({
            let (x, y) = (k % 16, k / 16);
            let dot = tray::pixels(n).subrange(4 * k, 4 * k + 4);
            &&& 3 <= x < 13 && 3 <= y < 13 ==> dot == seq![255u8, 42u8, 157u8, 143u8]
            &&& !(3 <= x < 13 && 3 <= y < 13) ==> dot == seq![0u8, 0u8, 0u8, 0u8]
        }),
    decreases n,
{
    let rest = tray::pixels((n - 1) as nat);
    let dot = tray::pixel(((n - 1) % 16) as int, ((n - 1) / 16) as int);
    lemma_icon_size((n - 1) as nat);
    if k < n - 1 {
        law_icon((n - 1) as nat, k);
        assert(tray::pixels(n).subrange(4 * k, 4 * k + 4) =~= rest.subrange(4 * k, 4 * k + 4));
    } else {
        assert(tray::pixels(n).subrange(4 * k, 4 * k + 4) =~= dot);
    }
}

proof fn lemma_icon_size(n: nat)
    ensures
        tray::pixels(n).len() == 4 * n,
    decreases n,
{
    if n > 0 {
        lemma_icon_size((n - 1) as nat);
    }
}

/// The command starts at the first word that is no option. Before it only `--no-wait`
/// may stand, and once.
pub proof fn law_command_line_head(tokens: Seq<Seq<char>>)
    ensures
        tokens.len() == 0 ==> options::headed(tokens, 0, false) == Ok::<
            (bool, Option<usize>),
            ErrorModel,
        >((false, None)),
        tokens.len() > 0 && !(tokens[0].len() > 1 && tokens[0][0] == '-') ==> options::headed(
            tokens,
            0,
            false,
        ) == Ok::<(bool, Option<usize>), ErrorModel>((false, Some(0))),
        tokens.len() > 1 && tokens[0] == "--no-wait"@ && !(tokens[1].len() > 1 && tokens[1][0]
            == '-') ==> options::headed(tokens, 0, false) == Ok::<
            (bool, Option<usize>),
            ErrorModel,
        >((true, Some(1))),
        tokens.len() > 1 && tokens[0] == "--no-wait"@ && tokens[1] == "--no-wait"@
            ==> options::headed(tokens, 0, false) is Err,
        tokens.len() > 0 && tokens[0].len() > 1 && tokens[0][0] == '-' && tokens[0]
            != "--no-wait"@ ==> options::headed(tokens, 0, false) is Err,
{
    reveal_strlit("--no-wait");
    reveal_strlit("--help");
    reveal_strlit("-h");
    reveal_with_fuel(options::headed, 3);
}

/// Of the words of a command, `--no-wait` may stand first or second, and is taken out
/// there.
pub proof fn law_no_wait_is_taken_out(body: Seq<char>, rest: Seq<Seq<char>>, given: bool)
    ensures
        body != "--no-wait"@ ==> {
            &&& rest.len() == 0 || rest[0] != "--no-wait"@ ==> parse::stripped(
                seq![body] + rest,
                given,
            ) == (seq![body] + rest, given)
            &&& rest.len() == 0 || rest[0] != "--no-wait"@ ==> parse::stripped(
                seq!["--no-wait"@, body] + rest,
                given,
            ) == (seq![body] + rest, true)
            &&& parse::stripped(seq![body, "--no-wait"@] + rest, given) == (seq![body] + rest, true)
        },
{
    let flag = "--no-wait"@;
    assert((seq![flag, body] + rest).skip(1) =~= seq![body] + rest);
    assert((seq![body, flag] + rest).remove(1) =~= seq![body] + rest);
}

proof fn lemma_listed_size(bytes: Seq<u8>)
    ensures
        json::listed(json::byte_items(bytes)).len() == storage::payload_size(bytes),
    decreases bytes.len(),
{
    reveal_strlit("");
    reveal_strlit(",");
    let items = json::byte_items(bytes);
    if bytes.len() > 0 {
        let rest = bytes.drop_last();
        lemma_listed_size(rest);
        assert(items.drop_last() =~= json::byte_items(rest));
        let b = bytes.last();
        reveal_with_fuel(text::decimal, 3);
        assert(items.last() == text::decimal(b as nat));
        assert(text::decimal(b as nat).len() == storage::byte_digits(b));
        assert(search::total(bytes, storage::digits_measure()) == search::total(
            rest,
            storage::digits_measure(),
        ) + storage::byte_digits(b));
        if bytes.len() == 1 {
            assert(rest =~= Seq::empty());
            assert(search::total(rest, storage::digits_measure()) == 0);
        }
    }
}

/// What bytes are charged for is what they take when they are written down as a list.
pub proof fn law_payload_is_what_is_written(bytes: Seq<u8>)
    ensures
        json::json_list(json::byte_items(bytes)).len() == storage::payload_size(bytes) + 2,
{
    reveal_strlit("[");
    reveal_strlit("]");
    lemma_listed_size(bytes);
}

/// What opens a connection: five letters, one way for pairing and another for the
/// encrypted channel. The channel's protocol has a name and a version.
pub proof fn law_prefaces()
    ensures
        mesh::preface_bytes(Preface::Pair) == vstd::utf8::encode_utf8("CLXP1"@),
        mesh::preface_bytes(Preface::Tls) == vstd::utf8::encode_utf8("CLXT1"@),
        mesh::preface_bytes(Preface::Pair) != mesh::preface_bytes(Preface::Tls),
        transport::protocol_name() == vstd::utf8::encode_utf8("clix/1"@),
{
    reveal_strlit("CLXP1");
    reveal_strlit("CLXT1");
    reveal_strlit("clix/1");
    vstd::utf8::is_ascii_chars_encode_utf8("CLXP1"@);
    vstd::utf8::is_ascii_chars_encode_utf8("CLXT1"@);
    vstd::utf8::is_ascii_chars_encode_utf8("clix/1"@);
    assert(mesh::pair_preface()[3] != mesh::tls_preface()[3]);
    assert(mesh::pair_preface() =~= vstd::utf8::encode_utf8("CLXP1"@));
    assert(mesh::tls_preface() =~= vstd::utf8::encode_utf8("CLXT1"@));
    assert(transport::protocol_name() =~= vstd::utf8::encode_utf8("clix/1"@));
}

/// A result that is sent is within its bounds, or refused.
pub proof fn law_results_are_bounded(job: JobModel)
    ensures
        limits::result_outcome(job) is Ok ==> {
            &&& job.stdout.len() <= 4 * 1024 * 1024
            &&& job.stderr.len() <= 4 * 1024 * 1024
            &&& limits::invocation_outcome(job.id, job.argv) is Ok
            &&& job.status matches JobStatusModel::Denied { reason } ==> text::byte_len(reason)
                <= 64 * 1024
            &&& job.status matches JobStatusModel::Failed { reason } ==> text::byte_len(reason)
                <= 64 * 1024
            &&& job.status matches JobStatusModel::Uncertain { reason } ==> text::byte_len(reason)
                <= 64 * 1024
        },
        limits::invocation_outcome(job.id, job.argv) is Ok && job.stdout.len() <= 4 * 1024 * 1024
            && job.stderr.len() <= 4 * 1024 * 1024 && (job.status is Done || job.status is Running)
            ==> limits::result_outcome(job) is Ok,
{
}

/// The names in the recovery directory: all of them, once each, but for the directory
/// itself and its lock.
pub proof fn law_recovery_names(names: Seq<Seq<char>>, name: Seq<char>)
    ensures
        table::lookup(recovery::entry_names(names, 0, Seq::empty()), name) is Some
            <==> names.contains(name) && name != "."@ && name != ".."@ && name != ".lock"@,
{
    let none = Seq::<(Seq<char>, ())>::empty();
    assert(table::ascending(none));
    lemma_names(names, 0, none, name);
    table::lemma_rank_bounds(none, name);
    if names.contains(name) {
        let j = choose|j: int| 0 <= j < names.len() && names[j] == name;
        assert(0 <= j && names[j] == name);
    }
}

proof fn lemma_names(
    names: Seq<Seq<char>>,
    i: int,
    rows: Seq<(Seq<char>, ())>,
    name: Seq<char>,
)
    requires
        0 <= i,
        table::ascending(rows),
    ensures
        table::lookup(recovery::entry_names(names, i, rows), name) is Some <==> table::lookup(
            rows,
            name,
        ) is Some || (!recovery::fixture(name) && exists|j: int|
            i <= j < names.len() && #[trigger] names[j] == name),
    decreases names.len() - i,
{
    if i < names.len() {
        if recovery::fixture(names[i]) {
            lemma_names(names, i + 1, rows, name);
        } else {
            table::lemma_stored_ascending(rows, names[i], ());
            table::lemma_stored_lookup(rows, names[i], (), name);
            lemma_names(names, i + 1, table::stored(rows, names[i], ()), name);
        }
    }
}

/// Pins are kept where the owner says, and else in the usual place.
pub proof fn law_pins_are_kept_where_the_owner_says(s: StoreModel, usual: Seq<char>)
    ensures
        s.pin_dir matches Some(dir) ==> sync::root_of(s, usual) == dir,
        s.pin_dir is None ==> sync::root_of(s, usual) == usual,
{
}

} // verus!
