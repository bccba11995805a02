//! The machine around the library: its network, its desktop, its service and its
//! files, as the library reads them.

use vstd::prelude::*;

use crate::cli::command::CmdModel;
use crate::daemon;
use crate::daemon::ActionModel;
use crate::error::{ErrorModel, Outcome};
use crate::grant;
use crate::history::diagnostics;
use crate::install;
use crate::limits;
use crate::limits::LineFault;
use crate::local::message;
use crate::notify;
use crate::order;
use crate::paths;
use crate::scan;
use crate::search;
use crate::store::StoreModel;
use crate::table;
use crate::tailscale;
use crate::tailscale::{NodeModel, PeerAddr, PeerAddrModel, ReportModel};
use crate::text;
use crate::tray;
use crate::types::{JobModel, RequestModel};

verus! {

/// Of a running network the status gives this machine's own first address, and every
/// online machine with another address, once for each, under its name. Anything else
/// is no network.
pub proof fn law_network_status(report: ReportModel, own: NodeModel, at: int)
    requires
        report.own == Some(own),
        0 <= at < own.ips.len(),
        tailscale::ipv4(own.ips[at]),
        forall|j: int| 0 <= j < at ==> !tailscale::ipv4(#[trigger] own.ips[j]),
    ensures
        report.state != "Running"@ ==> tailscale::status_outcome(report) is Err,
        report.state == "Running"@ ==> {
            &&& tailscale::status_outcome(report) matches Ok(status)
            &&& status.self_name == own.host_name
            &&& status.self_ipv4 == own.ips[at]
            &&& forall|i: int|
                0 <= i < report.peers.len() && reachable_at(
                    #[trigger] report.peers[i],
                    own.ips[at],
                ) is Some ==> status.peers.contains(
                    PeerAddrModel {
                        name: report.peers[i].host_name,
                        ipv4: reachable_at(report.peers[i], own.ips[at])->0,
                    },
                )
            &&& forall|k: int|
                0 <= k < status.peers.len() ==> exists|i: int|
                    0 <= i < report.peers.len() && (#[trigger] report.peers[i]).online
                        && report.peers[i].host_name == (#[trigger] status.peers[k]).name
                        && report.peers[i].ips.contains(status.peers[k].ipv4) && tailscale::ipv4(
                        status.peers[k].ipv4,
                    ) && status.peers[k].ipv4 != own.ips[at]
        },
{
    search::lemma_first_at(own.ips, tailscale::is_v4(), at);
    if report.state == "Running"@ {
        let ip = own.ips[at];
        let test = tailscale::reachable(ip);
        let near = search::kept(report.peers, test);
        let list = tailscale::addresses(near);
        let status = tailscale::status_outcome(report)->Ok_0;
        let shown = status.peers;
        search::lemma_kept(report.peers, test);
        order::lemma_sorted_same(list, order::rank_order::<PeerAddr>());
        broadcast use vstd::seq_lib::group_to_multiset_ensures;

        assert forall|i: int|
            0 <= i < report.peers.len() && reachable_at(
                #[trigger] report.peers[i],
                ip,
            ) is Some implies shown.contains(
            PeerAddrModel {
                name: report.peers[i].host_name,
                ipv4: reachable_at(report.peers[i], ip)->0,
            },
        ) by {
            let node = report.peers[i];
            lemma_reachable_at(node, ip);
            assert(test(report.peers[i]));
            let k = choose|k: int| 0 <= k < near.len() && near[k] == node;
            assert(list[k] == tailscale::address(node));
            assert(list.to_multiset().count(list[k]) > 0);
        }
        assert forall|k: int| 0 <= k < shown.len() implies exists|i: int|
            0 <= i < report.peers.len() && (#[trigger] report.peers[i]).online
                && report.peers[i].host_name == (#[trigger] shown[k]).name
                && report.peers[i].ips.contains(shown[k].ipv4) && tailscale::ipv4(shown[k].ipv4)
                && shown[k].ipv4 != ip by {
            assert(shown.to_multiset().count(shown[k]) > 0);
            assert(list.contains(shown[k]));
            let m = choose|m: int| 0 <= m < list.len() && list[m] == shown[k];
            assert(test(near[m]));
            assert(report.peers.contains(near[m]));
            let i = choose|i: int| 0 <= i < report.peers.len() && report.peers[i] == near[m];
            search::lemma_first(near[m].ips, tailscale::is_v4());
            let f = search::first(near[m].ips, tailscale::is_v4())->0;
            assert(near[m].ips[f] == shown[k].ipv4);
            assert(report.peers[i].online);
        }
    }
}

/// The first address of a machine that is online and is not this one.
pub open spec fn reachable_at(node: NodeModel, own: Seq<char>) -> Option<Seq<char>> {
    if node.online && (exists|i: int| first_address(node, i)) && node.ips[choose|i: int|
        first_address(node, i)] != own {
        Some(node.ips[choose|i: int| first_address(node, i)])
    } else {
        None
    }
}

/// Where the first address of the fourth version stands.
pub open spec fn first_address(node: NodeModel, i: int) -> bool {
    0 <= i < node.ips.len() && tailscale::ipv4(node.ips[i]) && forall|j: int|
        0 <= j < i ==> !tailscale::ipv4(#[trigger] node.ips[j])
}

proof fn lemma_reachable_at(node: NodeModel, own: Seq<char>)
    requires
        reachable_at(node, own) is Some,
    ensures
        tailscale::reachable(own)(node),
        tailscale::address(node) == (PeerAddrModel {
            name: node.host_name,
            ipv4: reachable_at(node, own)->0,
        }),
{
    let i = choose|i: int| first_address(node, i);
    assert(first_address(node, i));
    search::lemma_first_at(node.ips, tailscale::is_v4(), i);
}

/// An address is four numbers up to 255 with dots between them, written without
/// needless zeros.
pub proof fn law_addresses(a: nat, b: nat, c: nat, d: nat)
    requires
        a <= 255,
        b <= 255,
        c <= 255,
        d <= 255,
    ensures
        tailscale::ipv4(
            crate::laws::texts::rejoined(
                seq![text::decimal(a), text::decimal(b), text::decimal(c), text::decimal(d)],
                '.',
            ),
        ),
{
    let parts = seq![text::decimal(a), text::decimal(b), text::decimal(c), text::decimal(d)];
    lemma_octet(a);
    lemma_octet(b);
    lemma_octet(c);
    lemma_octet(d);
    crate::laws::texts::law_joined_texts_are_the_pieces(parts, '.');
}

proof fn lemma_octet(n: nat)
    requires
        n <= 255,
    ensures
        tailscale::octet(text::decimal(n)),
        !text::decimal(n).contains('.'),
{
    crate::laws::texts::law_number_is_read_back(n);
    reveal_with_fuel(text::decimal, 4);
    assert(text::decimal(n).len() <= 3);
    if text::decimal(n).contains('.') {
        let i = choose|i: int| 0 <= i < text::decimal(n).len() && text::decimal(n)[i] == '.';
        assert('0' <= text::decimal(n)[i] <= '9');
    }
    if n == 0 {
        assert(text::decimal(n).len() == 1);
    }
}

/// A number past 255 is no part of an address.
pub proof fn law_no_address(parts: Seq<Seq<char>>, i: int)
    requires
        parts.len() > 0,
        forall|j: int| 0 <= j < parts.len() ==> !(#[trigger] parts[j]).contains('.'),
        parts.len() != 4 || (0 <= i < 4 && (parts[i].len() == 0 || parts[i].len() > 3 || (
        scan::digits_value(parts[i]) matches Some(n) && n > 255) || scan::digits_value(parts[i])
            is None)),
    ensures
        !tailscale::ipv4(crate::laws::texts::rejoined(parts, '.')),
{
    crate::laws::texts::law_joined_texts_are_the_pieces(parts, '.');
}

/// The port is the one that is set, where it is one, and else the usual one.
pub proof fn law_ports(n: nat)
    ensures
        1 <= n <= 65535 ==> tailscale::chosen_port(Some(text::decimal(n))) == n,
        n == 0 || n > 65535 ==> tailscale::chosen_port(Some(text::decimal(n))) == 7421,
        tailscale::chosen_port(None) == 7421,
{
    crate::laws::texts::law_number_is_read_back(n);
}

/// What a notification offers are the three decisions, and its text says who wants what.
pub proof fn law_notifications(request: RequestModel, i: int)
    ensures
        notify::action_names() == seq!["once"@, "allow"@, "deny"@],
        notify::notice(request) == request.from + " wants "@ + request.tool + " on this machine"@,
        0 <= i < notify::action_names().len() ==> crate::request::action_decision(
            notify::action_names()[i],
        ) is Ok,
        tray::offered().len() == 3,
        forall|k: int|
            0 <= k < 3 ==> (#[trigger] tray::offered()[k]).0 == notify::action_names()[k],
{
}

/// The tray tells of pending requests first, and else of the newest running job.
pub proof fn law_tooltip(s: StoreModel, at: int)
    ensures
        s.requests.len() == 1 ==> tray::tooltip(s) == "1 request"@,
        s.requests.len() > 1 ==> tray::tooltip(s) == text::decimal(s.requests.len())
            + " requests"@,
        s.requests.len() == 0 && (forall|i: int|
            0 <= i < s.jobs.len() ==> !((#[trigger] s.jobs[i]).status is Running)) ==> tray::tooltip(
            s,
        ) == "Clix is running"@,
        s.requests.len() == 0 && 0 <= at < s.jobs.len() && s.jobs[at].status is Running && (
        forall|i: int|
            at < i < s.jobs.len() ==> !((#[trigger] s.jobs[i]).status is Running))
            && s.jobs[at].argv.len() > 0 ==> tray::tooltip(s) == s.jobs[at].argv[0] + " from "@
            + s.jobs[at].from,
{
    lemma_newest(s.jobs, at);
}

proof fn lemma_newest(jobs: Seq<JobModel>, at: int)
    ensures
        (forall|i: int| 0 <= i < jobs.len() ==> !((#[trigger] jobs[i]).status is Running))
            ==> tray::newest_running(jobs) is None,
        0 <= at < jobs.len() && jobs[at].status is Running && (forall|i: int|
            at < i < jobs.len() ==> !((#[trigger] jobs[i]).status is Running))
            ==> tray::newest_running(jobs) == Some(jobs[at]),
    decreases jobs.len(),
{
    if jobs.len() > 0 {
        let rest = jobs.drop_last();
        lemma_newest(rest, at);
        let end = jobs.len() - 1;
        if forall|i: int| 0 <= i < jobs.len() ==> !((#[trigger] jobs[i]).status is Running) {
            assert(!(jobs[end].status is Running));
            assert forall|i: int| 0 <= i < rest.len() implies !((
            #[trigger] rest[i]).status is Running) by {
                assert(!(jobs[i].status is Running));
            }
        }
        if 0 <= at < jobs.len() && jobs[at].status is Running && (forall|i: int|
            at < i < jobs.len() ==> !((#[trigger] jobs[i]).status is Running)) {
            if at < end {
                assert(!(jobs[end].status is Running));
                assert(rest[at] == jobs[at]);
                assert forall|i: int| at < i < rest.len() implies !((
                #[trigger] rest[i]).status is Running) by {
                    assert(!(jobs[i].status is Running));
                }
            }
        }
    }
}

/// The service's unit goes where the owner says, else into the configuration directory,
/// else below the home directory.
pub proof fn law_unit_directory(
    chosen: Option<Seq<char>>,
    config_home: Option<Seq<char>>,
    home: Option<Seq<char>>,
)
    ensures
        ({
            let set = |v: Option<Seq<char>>| v is Some && v->0.len() > 0;
            let result: Outcome<Seq<char>> = install::unit_dir(chosen, config_home, home);
            &&& set(chosen) ==> result == Ok::<Seq<char>, ErrorModel>(chosen->0)
            &&& !set(chosen) && set(config_home) ==> result == Ok::<Seq<char>, ErrorModel>(
                paths::joined_path(config_home->0, "systemd/user"@),
            )
            &&& !set(chosen) && !set(config_home) && set(home) ==> result == Ok::<
                Seq<char>,
                ErrorModel,
            >(paths::joined_path(home->0, ".config/systemd/user"@))
            &&& !set(chosen) && !set(config_home) && !set(home) ==> result is Err
        }),
{
}

/// A path that needs none is written without quotes. Lingering is on or off where the
/// answer says so, and the service is put into force only where its unit counts.
pub proof fn law_service(path: Seq<char>, answer: Seq<char>)
    ensures
        (forall|i: int|
            0 <= i < path.len() ==> !scan::space(#[trigger] path[i]) && path[i] != '"' && path[i]
                != '\\' && path[i] != '\'') ==> install::quoted(path) == path,
        (exists|i: int|
            0 <= i < path.len() && (scan::space(#[trigger] path[i]) || path[i] == '"' || path[i]
                == '\\' || path[i] == '\'')) ==> install::quoted(path) == "\""@ + scan::replaced(
            scan::replaced(path, '\\', "\\\\"@),
            '"',
            "\\\""@,
        ) + "\""@,
        scan::trimmed(answer) == "yes"@ ==> install::lingering(answer) == Some(true),
        install::lingering(answer) == Some(false) ==> scan::trimmed(answer) == "no"@,
        install::lingering(answer) is None ==> scan::trimmed(answer) != "yes"@ && scan::trimmed(
            answer,
        ) != "no"@,
        install::enabling(true).len() == 0,
        install::enabling(false) == seq![
            seq!["daemon-reload"@],
            seq!["enable"@, "--now"@, "clix.service"@],
        ],
{
    if exists|i: int|
        0 <= i < path.len() && (scan::space(#[trigger] path[i]) || path[i] == '"' || path[i] == '\\'
            || path[i] == '\'') {
        let i = choose|i: int|
            0 <= i < path.len() && (scan::space(#[trigger] path[i]) || path[i] == '"' || path[i]
                == '\\' || path[i] == '\'');
        assert(install::needs_quotes(path[i]));
    }
}

/// Each command does its own thing: it serves, installs, invites or joins, or calls the
/// service with its request.
pub proof fn law_actions_of_commands(
    cmd: CmdModel,
    name: Option<Seq<char>>,
    words: Seq<char>,
    addr: Option<Seq<char>>,
)
    ensures
        daemon::action_of(CmdModel::Daemon, addr) == Ok::<ActionModel, ErrorModel>(
            ActionModel::Serve,
        ),
        daemon::action_of(CmdModel::Install, addr) == Ok::<ActionModel, ErrorModel>(
            ActionModel::Install,
        ),
        daemon::action_of(CmdModel::Pair { phrase: None, name }, addr) matches Ok(
            ActionModel::Invite(_),
        ),
        daemon::action_of(CmdModel::Pair { phrase: Some(words), name }, addr) matches Ok(
            ActionModel::Join(sent),
        ) && sent == message::pair_message(
            Some(words),
            name,
            if addr is Some && addr->0.len() > 0 {
                addr
            } else {
                None
            },
        ),
        !(cmd is Daemon) && !(cmd is Install) && !(cmd is Pair) && message::cmd_message(cmd) is Ok
            ==> daemon::action_of(cmd, addr) == Ok::<ActionModel, ErrorModel>(
            ActionModel::Call(message::cmd_message(cmd)->Ok_0),
        ),
{
}

/// The history of a peer is complete where it was read to its end, from everyone known,
/// without a fault, and from a contact since.
pub proof fn law_diagnosis(s: StoreModel, i: int)
    requires
        0 <= i < s.peers.len(),
    ensures
        ({
            let told = diagnostics::diagnosis(s);
            let row = told.peers[i];
            let progress = table::lookup(s.history.peers, s.peers[i].name);
            &&& told.peers.len() == s.peers.len()
            &&& row.body == s.peers[i].name
            &&& progress is None ==> !row.complete && row.last_contact is None && row.error is None
            &&& progress matches Some(p) ==> {
                &&& row.complete <==> p.complete && !p.unknown_authors && p.error is None
                    && p.last_contact is Some
                &&& row.last_contact == p.last_contact
                &&& row.error == p.error
                &&& row.unknown_authors == p.unknown_authors
            }
            &&& told.local_sequence == s.history.clock
        }),
{
}

/// A path below a directory: the directory, one slash and the name; a path from the
/// root stands for itself.
pub proof fn law_joined_paths(dir: Seq<char>, name: Seq<char>)
    ensures
        name.len() > 0 && name[0] == '/' ==> paths::joined_path(dir, name) == name,
        !(name.len() > 0 && name[0] == '/') && dir.len() > 0 && dir.last() != '/'
            ==> paths::joined_path(dir, name) == dir + "/"@ + name,
        !(name.len() > 0 && name[0] == '/') && dir.len() > 0 && dir.last() == '/'
            ==> paths::joined_path(dir, name) == dir + name,
        dir.len() == 0 ==> paths::joined_path(dir, name) == name,
{
}

/// The last name of a path: of a plain name it is the name itself, and below any
/// directory it is the name that stands last.
pub proof fn law_last_names(dir: Seq<char>, name: Seq<char>)
    requires
        name.len() > 0,
        !name.contains('/'),
        name != "."@,
        name != ".."@,
    ensures
        paths::last_name(name) == name,
        paths::last_name(dir + seq!['/'] + name) == name,
{
    let none = Seq::<char>::empty();
    reveal_strlit("");
    text::lemma_pieces_word(none, name, '/');
    assert(none + name =~= name);
    assert(text::pieces(name, '/') =~= seq![name]);
    lemma_last_part(Seq::empty(), name);
    assert(Seq::<Seq<char>>::empty().push(name) =~= seq![name]);
    let start = dir + seq!['/'];
    assert(start.drop_last() =~= dir);
    assert(text::pieces(start, '/') == text::pieces(dir, '/').push(none));
    text::lemma_pieces_word(start, name, '/');
    assert(text::pieces(start, '/').drop_last() =~= text::pieces(dir, '/'));
    lemma_last_part(text::pieces(dir, '/'), name);
}

proof fn lemma_last_part(before: Seq<Seq<char>>, name: Seq<char>)
    requires
        name.len() > 0,
        name != "."@,
    ensures
        search::kept(before.push(name), paths::named_part()).len() > 0,
        search::kept(before.push(name), paths::named_part()).last() == name,
{
    reveal_strlit("");
    assert(before.push(name).drop_last() =~= before);
    assert(paths::named_part()(name));
}

/// A tool with a slash in it is looked for where it says; any other in each directory,
/// in order.
pub proof fn law_where_a_tool_is_looked_for(name: Seq<char>, dirs: Seq<Seq<char>>)
    ensures
        name.contains('/') ==> grant::candidate_paths(name, dirs) == seq![name],
        !name.contains('/') ==> grant::candidate_paths(name, dirs).len() == dirs.len() && forall|i: int|
            0 <= i < dirs.len() ==> #[trigger] grant::candidate_paths(name, dirs)[i]
                == paths::joined_path(dirs[i], name),
{
}

/// The state directory is the one that is set, else the project's own.
pub proof fn law_state_directory(home: Option<Seq<char>>, project: Option<Seq<char>>)
    ensures
        home is Some && home->0.len() > 0 ==> paths::state_dir_outcome(home, project) == Ok::<
            Seq<char>,
            ErrorModel,
        >(home->0),
        !(home is Some && home->0.len() > 0) && project is Some ==> paths::state_dir_outcome(
            home,
            project,
        ) == Ok::<Seq<char>, ErrorModel>(project->0),
        !(home is Some && home->0.len() > 0) && project is None ==> paths::state_dir_outcome(
            home,
            project,
        ) is Err,
{
}

/// A request of an owner's client is one line of text, whole and within its limit.
pub proof fn law_request_lines(bytes: Seq<u8>, limit: nat)
    ensures
        bytes.len() == 0 ==> limits::line_outcome(bytes, limit) == Ok::<
            Option<Seq<u8>>,
            LineFault,
        >(None),
        0 < bytes.len() <= limit && bytes.last() == 10 && vstd::utf8::valid_utf8(bytes.drop_last())
            ==> limits::line_outcome(bytes, limit) == Ok::<Option<Seq<u8>>, LineFault>(
            Some(bytes.drop_last()),
        ),
        bytes.len() > limit && bytes.len() > 0 ==> limits::line_outcome(bytes, limit) is Err,
        0 < bytes.len() && bytes.last() != 10 ==> limits::line_outcome(bytes, limit) is Err,
{
}

/// Whether two paths name one place: a path names its own, a plain name no other's, and
/// one from the root never that of one that is not.
pub proof fn law_same_place(a: Seq<char>, b: Seq<char>)
    ensures
        paths::same_place(a, a),
        paths::same_place(a, b) ==> paths::same_place(b, a),
        a.len() > 0 && a[0] == '/' && !(b.len() > 0 && b[0] == '/') ==> !paths::same_place(a, b),
        a.len() > 0 && b.len() > 0 && !a.contains('/') && !b.contains('/') && a != "."@ && b
            != "."@ ==> (paths::same_place(a, b) <==> a == b),
{
    if a.len() > 0 && b.len() > 0 && !a.contains('/') && !b.contains('/') && a != "."@ && b
        != "."@ {
        lemma_plain_parts(a);
        lemma_plain_parts(b);
        assert(paths::parts(a)[0] == a && paths::parts(b)[0] == b);
        assert(!(a[0] == '/')) by {
            assert(a.contains(a[0]));
        }
        assert(!(b[0] == '/')) by {
            assert(b.contains(b[0]));
        }
    }
}

proof fn lemma_plain_parts(name: Seq<char>)
    requires
        name.len() > 0,
        !name.contains('/'),
        name != "."@,
    ensures
        paths::parts(name) == seq![name],
{
    let none = Seq::<char>::empty();
    reveal_strlit("");
    text::lemma_pieces_word(none, name, '/');
    assert(none + name =~= name);
    assert(text::pieces(name, '/') =~= seq![name]);
    assert(paths::named_part()(name));
    assert(seq![name].drop_last() =~= Seq::empty());
    assert(search::kept(Seq::<Seq<char>>::empty(), paths::named_part()) =~= Seq::empty());
    assert(search::kept(seq![name], paths::named_part()) =~= seq![name]);
}

} // verus!
