//! Where the other machines of a tailnet are.

use vstd::prelude::*;

use crate::data::Data;
use crate::error;
use crate::error::{ClixError, ErrorModel, Outcome, Result};
use crate::order;
use crate::order::{sort, Ranked};
use crate::scan;
use crate::scan::parse_number;
use crate::search;
use crate::text;
use crate::text::{cat3, chars_of, decimal_text, owned, split, text_less, text_same};

verus! {

/// A tailnet peer Clix can dial. Not Clix identity.
#[derive(Debug, Clone, PartialEq, Eq)]
pub struct PeerAddr {
    pub name: String,
    pub ipv4: String,
}

/// What a `PeerAddr` says.
#[verifier::ext_equal]
pub struct PeerAddrModel {
    pub name: Seq<char>,
    pub ipv4: Seq<char>,
}

impl View for PeerAddr {
    type V = PeerAddrModel;

    open spec fn view(&self) -> PeerAddrModel {
        PeerAddrModel {
            name: self.name.deep_view(),
            ipv4: self.ipv4.deep_view(),
        }
    }
}

impl DeepView for PeerAddr {
    type V = PeerAddrModel;

    open spec fn deep_view(&self) -> PeerAddrModel {
        self@
    }
}

impl Data for PeerAddr {
    fn dup(&self) -> (copy: Self) {
        PeerAddr {
            name: self.name.dup(),
            ipv4: self.ipv4.dup(),
        }
    }

    fn same(&self, other: &Self) -> (equal: bool) {
        self.name.same(&other.name)
            && self.ipv4.same(&other.ipv4)
    }
}

/// This machine and its peers on the tailnet.
#[derive(Debug, Clone, PartialEq, Eq)]
pub struct Status {
    pub self_name: String,
    pub self_ipv4: String,
    pub peers: Vec<PeerAddr>,
}

/// What a `Status` says.
#[verifier::ext_equal]
pub struct StatusModel {
    pub self_name: Seq<char>,
    pub self_ipv4: Seq<char>,
    pub peers: Seq<PeerAddrModel>,
}

impl View for Status {
    type V = StatusModel;

    open spec fn view(&self) -> StatusModel {
        StatusModel {
            self_name: self.self_name.deep_view(),
            self_ipv4: self.self_ipv4.deep_view(),
            peers: self.peers.deep_view(),
        }
    }
}

impl DeepView for Status {
    type V = StatusModel;

    open spec fn deep_view(&self) -> StatusModel {
        self@
    }
}

impl Data for Status {
    fn dup(&self) -> (copy: Self) {
        Status {
            self_name: self.self_name.dup(),
            self_ipv4: self.self_ipv4.dup(),
            peers: self.peers.dup(),
        }
    }

    fn same(&self, other: &Self) -> (equal: bool) {
        self.self_name.same(&other.self_name)
            && self.self_ipv4.same(&other.self_ipv4)
            && self.peers.same(&other.peers)
    }
}

/// One machine, as Tailscale reports it.
#[derive(Debug, Clone, PartialEq, Eq)]
pub struct Node {
    pub host_name: String,
    pub ips: Vec<String>,
    pub online: bool,
}

/// What a `Node` says.
#[verifier::ext_equal]
pub struct NodeModel {
    pub host_name: Seq<char>,
    pub ips: Seq<Seq<char>>,
    pub online: bool,
}

impl View for Node {
    type V = NodeModel;

    open spec fn view(&self) -> NodeModel {
        NodeModel {
            host_name: self.host_name.deep_view(),
            ips: self.ips.deep_view(),
            online: self.online,
        }
    }
}

impl DeepView for Node {
    type V = NodeModel;

    open spec fn deep_view(&self) -> NodeModel {
        self@
    }
}

impl Data for Node {
    fn dup(&self) -> (copy: Self) {
        Node {
            host_name: self.host_name.dup(),
            ips: self.ips.dup(),
            online: self.online,
        }
    }

    fn same(&self, other: &Self) -> (equal: bool) {
        self.host_name.same(&other.host_name)
            && self.ips.same(&other.ips)
            && self.online == other.online
    }
}

/// What Tailscale reports: its state, this machine and the others.
#[derive(Debug, Clone, PartialEq, Eq)]
pub struct Report {
    pub state: String,
    pub own: Option<Node>,
    pub peers: Vec<Node>,
}

/// What a `Report` says.
#[verifier::ext_equal]
pub struct ReportModel {
    pub state: Seq<char>,
    pub own: Option<NodeModel>,
    pub peers: Seq<NodeModel>,
}

impl View for Report {
    type V = ReportModel;

    open spec fn view(&self) -> ReportModel {
        ReportModel {
            state: self.state.deep_view(),
            own: self.own.deep_view(),
            peers: self.peers.deep_view(),
        }
    }
}

impl DeepView for Report {
    type V = ReportModel;

    open spec fn deep_view(&self) -> ReportModel {
        self@
    }
}

impl Data for Report {
    fn dup(&self) -> (copy: Self) {
        Report {
            state: self.state.dup(),
            own: self.own.dup(),
            peers: self.peers.dup(),
        }
    }

    fn same(&self, other: &Self) -> (equal: bool) {
        self.state.same(&other.state)
            && self.own.same(&other.own)
            && self.peers.same(&other.peers)
    }
}

/// The port that a mesh listens on unless another is chosen.
pub const DEFAULT_PORT: u16 = 7421;

pub open spec fn tailscale_off() -> ErrorModel {
    ErrorModel::Io("Tailscale is off. Start it, then pair."@)
}

pub fn off() -> (error: ClixError)
    ensures
        error@ == tailscale_off(),
{
    ClixError::Io(owned("Tailscale is off. Start it, then pair."))
}

/// A number up to 255 in one to three digits, without a leading zero.
pub open spec fn octet(s: Seq<char>) -> bool {
    &&& 1 <= s.len() <= 3
    &&& s[0] == '0' ==> s.len() == 1
    &&& match scan::digits_value(s) {
        Some(n) => n <= 255,
        None => false,
    }
}

/// Four octets with dots between them.
pub open spec fn ipv4(s: Seq<char>) -> bool {
    let parts = text::pieces(s, '.');
    parts.len() == 4 && octet(parts[0]) && octet(parts[1]) && octet(parts[2]) && octet(parts[3])
}

fn is_octet(s: &str) -> (yes: bool)
    ensures
        yes == octet(s@),
{
    let chars = chars_of(s);
    if chars.len() == 0 || chars.len() > 3 {
        return false;
    }
    if chars[0] == '0' && chars.len() != 1 {
        return false;
    }
    if chars[0] == '+' {
        proof {
            lemma_plus_is_no_digit(s@, s@.len() as int);
            assert(s@.take(s@.len() as int) =~= s@);
        }
        return false;
    }
    parse_number(s, 255).is_some()
}

proof fn lemma_plus_is_no_digit(s: Seq<char>, n: int)
    requires
        0 < n <= s.len(),
        s[0] == '+',
    ensures
        scan::digits_value(s.take(n)) is None,
    decreases n,
{
    let t = s.take(n);
    if n == 1 {
        assert(t.last() == '+');
    } else {
        lemma_plus_is_no_digit(s, n - 1);
        assert(t.drop_last() =~= s.take(n - 1));
    }
}

pub fn is_ipv4(s: &str) -> (yes: bool)
    ensures
        yes == ipv4(s@),
{
    let parts = split(s, '.');
    let ghost view = parts.deep_view();
    if parts.len() != 4 {
        return false;
    }
    assert(view[0] == parts@[0]@ && view[1] == parts@[1]@ && view[2] == parts@[2]@ && view[3]
        == parts@[3]@);
    is_octet(&parts[0]) && is_octet(&parts[1]) && is_octet(&parts[2]) && is_octet(&parts[3])
}

pub open spec fn is_v4() -> spec_fn(Seq<char>) -> bool {
    |s: Seq<char>| ipv4(s)
}

fn first_ipv4(ips: &Vec<String>) -> (ip: Option<String>)
    ensures
        ip.deep_view() == search::found(ips.deep_view(), is_v4()),
{
    let ghost view = ips.deep_view();
    let mut i: usize = 0;
    while i < ips.len()
        invariant
            i <= ips.len(),
            view == ips.deep_view(),
            forall|j: int| 0 <= j < i ==> !is_v4()(#[trigger] view[j]),
        decreases ips.len() - i,
    {
        assert(view[i as int] == ips@[i as int]@);
        if is_ipv4(&ips[i]) {
            proof {
                search::lemma_first_at(view, is_v4(), i as int);
            }
            return Some(ips[i].dup());
        }
        i += 1;
    }
    proof {
        search::lemma_first_none(view, is_v4());
    }
    None
}

impl Ranked for PeerAddr {
    open spec fn before(a: PeerAddrModel, b: PeerAddrModel) -> bool {
        text::text_lt(a.name, b.name)
    }

    fn is_before(&self, other: &Self) -> (yes: bool) {
        text_less(&self.name, &other.name)
    }
}

/// A machine that is online, at an address other than this machine's.
pub open spec fn reachable(own: Seq<char>) -> spec_fn(NodeModel) -> bool {
    |n: NodeModel|
        n.online && match search::found(n.ips, is_v4()) {
            Some(ip) => ip != own,
            None => false,
        }
}

pub open spec fn address(n: NodeModel) -> PeerAddrModel {
    PeerAddrModel { name: n.host_name, ipv4: search::found(n.ips, is_v4())->0 }
}

pub open spec fn addresses(nodes: Seq<NodeModel>) -> Seq<PeerAddrModel> {
    Seq::new(nodes.len(), |i: int| address(nodes[i]))
}

/// The online peers by name. This machine is not its own peer.
pub open spec fn status_outcome(report: ReportModel) -> Outcome<StatusModel> {
    if report.state != "Running"@ {
        Err(tailscale_off())
    } else {
        match report.own {
            None => Err(tailscale_off()),
            Some(own) => match search::found(own.ips, is_v4()) {
                None => Err(tailscale_off()),
                Some(ip) => Ok(
                    StatusModel {
                        self_name: own.host_name,
                        self_ipv4: ip,
                        peers: order::sorted(
                            addresses(search::kept(report.peers, reachable(ip))),
                            order::rank_order::<PeerAddr>(),
                        ),
                    },
                ),
            },
        }
    }
}

fn peer_addresses(nodes: &Vec<Node>, own: &str) -> (peers: Vec<PeerAddr>)
    ensures
        peers.deep_view() == addresses(search::kept(nodes.deep_view(), reachable(own@))),
{
    let ghost view = nodes.deep_view();
    let ghost test = reachable(own@);
    let mut peers: Vec<PeerAddr> = Vec::new();
    let mut i: usize = 0;
    assert(view.take(0) =~= Seq::<NodeModel>::empty());
    assert(peers.deep_view() =~= addresses(search::kept(view.take(0), test)));
    while i < nodes.len()
        invariant
            i <= nodes.len(),
            view == nodes.deep_view(),
            test == reachable(own@),
            peers.deep_view() == addresses(search::kept(view.take(i as int), test)),
        decreases nodes.len() - i,
    {
        let ghost before = peers.deep_view();
        let ghost held = search::kept(view.take(i as int), test);
        assert(view[i as int] == nodes@[i as int]@);
        proof {
            search::lemma_kept_step(view, test, i as int);
        }
        if nodes[i].online {
            if let Some(ip) = first_ipv4(&nodes[i].ips) {
                if !text_same(&ip, own) {
                    let peer = PeerAddr { name: nodes[i].host_name.dup(), ipv4: ip };
                    let ghost item = peer@;
                    peers.push(peer);
                    assert(peers.deep_view() =~= before.push(item));
                    assert(addresses(held.push(view[i as int])) =~= before.push(item));
                }
            }
        }
        i += 1;
    }
    assert(view.take(i as int) =~= view);
    peers
}

/// Read a report of Tailscale's status.
pub fn parse_status(report: &Report) -> (result: Result<Status>)
    ensures
        error::outcome(result) == status_outcome(report@),
{
    if !text_same(&report.state, "Running") {
        return Err(off());
    }
    let own = match &report.own {
        Some(own) => own,
        None => return Err(off()),
    };
    let self_ipv4 = match first_ipv4(&own.ips) {
        Some(ip) => ip,
        None => return Err(off()),
    };
    let peers = sort(peer_addresses(&report.peers, &self_ipv4));
    Ok(Status { self_name: own.host_name.dup(), self_ipv4, peers })
}

/// The online peers of a report, which is missing where Tailscale did not answer.
pub fn tailscale_status(report: Option<Report>) -> (result: Result<Vec<PeerAddr>>)
    ensures
        error::outcome(result) == match report {
            Some(report) => match status_outcome(report@) {
                Ok(status) => Ok::<Seq<PeerAddrModel>, ErrorModel>(status.peers),
                Err(e) => Err::<Seq<PeerAddrModel>, ErrorModel>(e),
            },
            None => Err::<Seq<PeerAddrModel>, ErrorModel>(tailscale_off()),
        },
{
    match report {
        Some(report) => match parse_status(&report) {
            Ok(status) => Ok(status.peers),
            Err(e) => Err(e),
        },
        None => Err(off()),
    }
}

pub open spec fn chosen_port(setting: Option<Seq<char>>) -> u16 {
    match setting {
        Some(s) => match scan::bounded_number(s, 65535) {
            Some(n) => if n != 0 {
                n as u16
            } else {
                DEFAULT_PORT
            },
            None => DEFAULT_PORT,
        },
        None => DEFAULT_PORT,
    }
}

/// The port that is set, or the usual one.
pub fn mesh_port(setting: Option<&str>) -> (port: u16)
    ensures
        port == chosen_port(
            match setting {
                Some(s) => Some(s@),
                None => None,
            },
        ),
{
    match setting {
        Some(s) => match parse_number(s, 65535) {
            Some(n) => if n != 0 {
                n as u16
            } else {
                DEFAULT_PORT
            },
            None => DEFAULT_PORT,
        },
        None => DEFAULT_PORT,
    }
}

/// This machine's tailnet address and mesh port.
pub fn mesh_bind_addr(status: &Status, port: u16) -> (addr: String)
    ensures
        addr@ == status@.self_ipv4 + ":"@ + text::decimal(port as nat),
{
    let port_text = decimal_text(port as u64);
    cat3(&status.self_ipv4, ":", &port_text)
}

/// Where a mesh listens: at the address that is set, else on the tailnet.
pub fn listen_addr(setting: Option<&str>, report: Option<Report>, port: u16) -> (result: Result<
    String,
>)
    ensures
        error::outcome(result) == match setting {
            Some(addr) if addr@.len() > 0 => Ok::<Seq<char>, ErrorModel>(addr@),
            _ => match report {
                None => Err::<Seq<char>, ErrorModel>(tailscale_off()),
                Some(report) => match status_outcome(report@) {
                    Ok(status) => Ok::<Seq<char>, ErrorModel>(
                        status.self_ipv4 + ":"@ + text::decimal(port as nat),
                    ),
                    Err(e) => Err::<Seq<char>, ErrorModel>(e),
                },
            },
        },
{
    if let Some(addr) = setting {
        if !addr.is_empty() {
            return Ok(owned(addr));
        }
    }
    match report {
        Some(report) => match parse_status(&report) {
            Ok(status) => Ok(mesh_bind_addr(&status, port)),
            Err(e) => Err(e),
        },
        None => Err(off()),
    }
}

} // verus!
