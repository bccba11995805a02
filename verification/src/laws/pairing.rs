//! Pairing and the calls between paired machines: what a machine may be called,
//! who is told what and when, and who is let in.

use vstd::prelude::*;

use crate::crypto;
use crate::error::ErrorModel;
use crate::history::wire;
use crate::job;
use crate::mesh;
use crate::mesh::serve;
use crate::mesh::NetworkFault;
use crate::pair;
use crate::pair::handshake::{
    JoinSearchModel, PairActionModel, PairEventModel, PairIdentityModel, PairPhase, PairRunModel,
};
use crate::request;
use crate::search;
use crate::store;
use crate::store::StoreModel;
use crate::text;
use crate::transport;
use crate::types::{JobModel, PeerModel};

verus! {

/// A machine's name is letters, digits, dashes and underscores, with a letter or a
/// digit first. Any such name will do for a new pairing unless it is a command.
pub proof fn law_machine_names(name: Seq<char>)
    ensures
        ({
            let plain = |c: char| 'a' <= c <= 'z' || 'A' <= c <= 'Z' || '0' <= c <= '9';
            let ok = name.len() > 0 && plain(name[0]) && forall|i: int|
                0 <= i < name.len() ==> (plain(#[trigger] name[i]) || name[i] == '-' || name[i]
                    == '_');
            &&& pair::name_outcome(name) is Ok <==> ok
            &&& pair::new_name_outcome(name) is Ok <==> ok && !pair::owner_command(name)
            &&& pair::new_name_outcome(name) is Err && ok ==> pair::new_name_outcome(name) == Err::<
                (),
                ErrorModel,
            >(
                ErrorModel::Usage("'"@ + name + "' is a Clix command; choose another machine name"@),
            )
        }),
{
    assert forall|i: int| 0 <= i < name.len() && !(('a' <= #[trigger] name[i] <= 'z' || 'A'
        <= name[i] <= 'Z' || '0' <= name[i] <= '9') || name[i] == '-' || name[i] == '_') implies !pair::valid_name(
        name,
    ) by {
        assert(!pair::name_char()(name[i]));
    }
    if pair::valid_name(name) {
        assert forall|i: int| 0 <= i < name.len() implies ('a' <= #[trigger] name[i] <= 'z' || 'A'
            <= name[i] <= 'Z' || '0' <= name[i] <= '9') || name[i] == '-' || name[i] == '_' by {
            assert(pair::name_char()(name[i]));
        }
    }
}

pub proof fn lemma_kept_all<T>(s: Seq<T>, test: spec_fn(T) -> bool)
    requires
        forall|i: int| 0 <= i < s.len() ==> test(#[trigger] s[i]),
    ensures
        search::kept(s, test) == s,
    decreases s.len(),
{
    if s.len() > 0 {
        assert forall|i: int| 0 <= i < s.drop_last().len() implies test(
            #[trigger] s.drop_last()[i],
        ) by {
            assert(test(s[i]));
        }
        lemma_kept_all(s.drop_last(), test);
        assert(test(s[s.len() - 1]));
        assert(s.drop_last().push(s.last()) =~= s);
    }
}

/// A host that has a valid name keeps it as its machine name, without its domain.
pub proof fn law_host_keeps_its_name(host: Seq<char>, domain: Seq<char>)
    requires
        pair::valid_name(host),
    ensures
        pair::sanitized(host) == host,
        pair::sanitized(host + seq!['.'] + domain) == host,
{
    let none = Seq::<char>::empty();
    assert(!host.contains('.')) by {
        if host.contains('.') {
            let i = choose|i: int| 0 <= i < host.len() && host[i] == '.';
            assert(pair::name_char()(host[i]));
        }
    }
    text::lemma_pieces_word(none, host, '.');
    assert(none + host =~= host);
    assert(text::pieces(host, '.') =~= seq![host]);
    lemma_kept_all(host, pair::name_char());
    lemma_first_piece(host, domain);
}

/// What stands before the first separator is the first piece.
proof fn lemma_first_piece(host: Seq<char>, domain: Seq<char>)
    requires
        !host.contains('.'),
    ensures
        text::pieces(host + seq!['.'] + domain, '.').len() > 1,
        text::pieces(host + seq!['.'] + domain, '.')[0] == host,
    decreases domain.len(),
{
    let none = Seq::<char>::empty();
    let all = host + seq!['.'] + domain;
    if domain.len() == 0 {
        text::lemma_pieces_word(none, host, '.');
        assert(none + host =~= host);
        assert(text::pieces(host, '.') =~= seq![host]);
        assert(all.drop_last() =~= host);
        assert(all.last() == '.');
    } else {
        lemma_first_piece(host, domain.drop_last());
        assert(all.drop_last() =~= host + seq!['.'] + domain.drop_last());
    }
}

/// A machine is recorded as it announced itself. Where it gave no address, the one
/// that it was reached at counts.
pub proof fn law_peer_as_announced(
    name: Seq<char>,
    owner_pk: Seq<u8>,
    addr: Option<Seq<char>>,
    reached: Option<Seq<char>>,
)
    ensures
        ({
            let peer = pair::announced(name, owner_pk, addr, reached);
            &&& peer.name == name
            &&& peer.owner_pk == owner_pk
            &&& addr is Some && addr->0.len() > 0 ==> peer.addr == addr
            &&& !(addr is Some && addr->0.len() > 0) ==> peer.addr == reached
        }),
{
}

/// Recording a machine replaces the one of that name, where there is one, and else
/// adds it; no other place changes.
pub proof fn law_pairing_changes_one_place(peers: Seq<PeerModel>, peer: PeerModel, at: int)
    ensures
        (forall|j: int| 0 <= j < peers.len() ==> (#[trigger] peers[j]).name != peer.name)
            ==> pair::with_peer(peers, peer) == peers.push(peer),
        0 <= at < peers.len() && peers[at].name == peer.name && (forall|j: int|
            0 <= j < at ==> (#[trigger] peers[j]).name != peer.name) ==> pair::with_peer(
            peers,
            peer,
        ) == peers.update(at, peer),
{
    let test = wire::peer_named(peer.name);
    search::lemma_first(peers, test);
    if 0 <= at < peers.len() && peers[at].name == peer.name && (forall|j: int|
        0 <= j < at ==> (#[trigger] peers[j]).name != peer.name) {
        search::lemma_first_at(peers, test, at);
    }
}

/// A frame opens to what stands behind its tag, exactly where the tag is that of the
/// content under the same key.
pub proof fn law_frame_opens_under_its_key(key: Seq<u8>, tag: Seq<u8>, payload: Seq<u8>)
    requires
        tag.len() == 32,
    ensures
        tag == pair::hmac_sha256(key, pair::pair_message(payload)) ==> pair::opened(
            key,
            tag + payload,
        ) == Ok::<Seq<u8>, ErrorModel>(payload) && pair::sealed(key, payload) == tag + payload,
        tag != pair::hmac_sha256(key, pair::pair_message(payload)) ==> pair::opened(
            key,
            tag + payload,
        ) == Err::<Seq<u8>, ErrorModel>(ErrorModel::Io("phrase did not match"@)),
        forall|short: Seq<u8>|
            short.len() < 32 ==> #[trigger] pair::opened(key, short) is Err,
{
    assert((tag + payload).take(32) =~= tag);
    assert((tag + payload).skip(32) =~= payload);
}

/// The order of a pairing. The listening machine tells who it is only after it has
/// recorded the other one. Either side records only an identity that it read from a
/// frame which opened under the shared key, and each side ends with a record kept.
pub proof fn law_pairing_order(run: PairRunModel, event: PairEventModel)
    ensures
        run.after(event).1 is Ok ==> {
            let next = run.after(event).0;
            &&& next.phase == PairPhase::Telling && !run.joiner ==> run.phase == PairPhase::Keeping
                && (event matches PairEventModel::Kept(Ok(_)))
            &&& next.phase == PairPhase::Telling && run.joiner ==> run.phase == PairPhase::Awaiting
                && event is Received
            &&& next.phase == PairPhase::Keeping ==> run.phase == PairPhase::Reading && (
            event matches PairEventModel::Understood(Some(who)) && next.who == Some(who))
            &&& next.phase == PairPhase::Reading ==> run.phase == PairPhase::Learning && (
            event matches PairEventModel::Received(frame) && pair::opened(run.key, frame) == Ok::<
                Seq<u8>,
                ErrorModel,
            >(next.payload))
            &&& next.phase == PairPhase::Finished && run.joiner ==> run.phase == PairPhase::Keeping
                && (event matches PairEventModel::Kept(Ok(_)))
            &&& next.phase == PairPhase::Finished && !run.joiner ==> run.phase == PairPhase::Telling
                && event is Sent
            &&& next.phase == PairPhase::Learning && run.joiner ==> run.phase == PairPhase::Telling
                && event is Sent
            &&& next.phase == PairPhase::Learning && !run.joiner ==> run.phase
                == PairPhase::Offering && event is Sent
            &&& next.phase != PairPhase::Broken
            &&& next.joiner == run.joiner && next.name == run.name && next.owner_pk == run.owner_pk
                && next.addr == run.addr && next.ours == run.ours
        },
        run.after(event).1 is Err ==> run.after(event).0.next() is Done,
        event is Lost ==> run.after(event).1 is Err,
{
}

/// A pairing that nothing disturbs goes through on both sides.
pub proof fn law_pairing_goes_through(
    run: PairRunModel,
    bytes: Seq<u8>,
    who: PairIdentityModel,
    peer: PeerModel,
)
    ensures
        run.joiner && run.phase == PairPhase::Offering ==> run.next() == PairActionModel::Send(
            run.ours,
        ) && run.after(PairEventModel::Sent) == (
            PairRunModel { phase: PairPhase::Awaiting, ..run },
            Ok::<(), ErrorModel>(()),
        ),
        !run.joiner && run.phase == PairPhase::Awaiting ==> run.next() is Receive && run.after(
            PairEventModel::Received(bytes),
        ) == (
            PairRunModel { theirs: bytes, phase: PairPhase::Offering, ..run },
            Ok::<(), ErrorModel>(()),
        ),
        run.phase == PairPhase::Telling ==> run.after(PairEventModel::Sent).1 is Ok,
        run.phase == PairPhase::Learning && pair::opened(run.key, bytes) is Ok ==> run.after(
            PairEventModel::Received(bytes),
        ).0.next() == PairActionModel::Read(pair::opened(run.key, bytes)->Ok_0),
        run.phase == PairPhase::Reading ==> run.after(
            PairEventModel::Understood(Some(who)),
        ).0.next() == PairActionModel::Keep(who),
        run.phase == PairPhase::Keeping ==> run.after(
            PairEventModel::Kept(Ok::<PeerModel, ErrorModel>(peer)),
        ).1 is Ok,
        run.phase == PairPhase::Telling ==> run.next() == PairActionModel::Send(
            pair::sealed(
                run.key,
                vstd::utf8::encode_utf8(pair::identity_json(run.name, run.owner_pk, run.addr)),
            ),
        ),
{
}

/// A machine that looks for the one with the phrase tries every peer once, in order,
/// and reports the last failure.
pub proof fn law_every_peer_is_tried(search: JoinSearchModel, e: ErrorModel)
    requires
        search.tried < search.peers.len(),
    ensures
        search.next() == Some(
            search.peers[search.tried as int].ipv4 + ":"@ + text::decimal(search.port as nat),
        ),
        search.failed(e).tried == search.tried + 1,
        search.failed(e).last == Some(e),
        search.failed(e).peers == search.peers && search.failed(e).port == search.port,
        search.tried + 1 == search.peers.len() ==> search.failed(e).next() is None,
{
}

/// A machine that calls is known by the key that it holds, and by nothing else.
pub proof fn law_caller_is_known_by_key(s: StoreModel, pk: Seq<u8>, at: int)
    ensures
        0 <= at < s.peers.len() && s.peers[at].owner_pk == pk && (forall|j: int|
            0 <= j < at ==> (#[trigger] s.peers[j]).owner_pk != pk) ==> transport::identified(s, pk)
            == Ok::<PeerModel, ErrorModel>(s.peers[at]),
        (forall|j: int| 0 <= j < s.peers.len() ==> (#[trigger] s.peers[j]).owner_pk != pk)
            ==> transport::identified(s, pk) is Err,
        transport::identified(s, pk) matches Ok(peer) ==> peer.owner_pk == pk && s.peers.contains(
            peer,
        ),
{
    let test = transport::has_key(pk);
    search::lemma_first(s.peers, test);
    if 0 <= at < s.peers.len() && s.peers[at].owner_pk == pk && (forall|j: int|
        0 <= j < at ==> (#[trigger] s.peers[j]).owner_pk != pk) {
        search::lemma_first_at(s.peers, test, at);
    }
}

/// A key is presented only where it is a sound one of the right length, and a
/// handshake names one machine, not several and not none.
pub proof fn law_sound_keys_only(pk: Seq<u8>, certs: Option<Seq<Seq<u8>>>)
    ensures
        transport::presented(pk) is Ok <==> pk.len() == 32 && crypto::ed25519_point(pk)
            && !crypto::ed25519_weak(pk),
        transport::presented(pk) is Ok ==> transport::presented(pk)->Ok_0 == crypto::spki(pk),
        certs is None || certs->0.len() != 1 ==> transport::peer_key_outcome(certs) is Err,
        certs is Some && certs->0.len() == 1 ==> (transport::peer_key_outcome(certs) is Ok
            <==> crypto::ed25519_der_key(certs->0[0]) is Ok),
        transport::peer_key_outcome(certs) matches Ok(key) ==> crypto::ed25519_der_key(certs->0[0])
            == Ok::<Seq<u8>, Seq<char>>(key),
{
}

/// A peer learns of a job only where it asked this machine for it: then it gets that
/// job, and otherwise nothing.
pub proof fn law_only_the_asker_is_told(s: StoreModel, peer: Seq<char>, id: Seq<char>, at: int)
    ensures
        serve::job_reply(s, peer, Some(id)) is Ok,
        serve::job_reply(s, peer, Some(id)) matches Ok(Some(found)) ==> found.id == id && found.from
            == peer && found.body == s.body_name && s.jobs.contains(found),
        0 <= at < s.jobs.len() && s.jobs[at].id == id && s.jobs[at].from == peer && s.jobs[at].body
            == s.body_name && (forall|j: int| 0 <= j < at ==> (#[trigger] s.jobs[j]).id != id)
            ==> serve::job_reply(s, peer, Some(id)) == Ok::<Option<JobModel>, ErrorModel>(
            Some(s.jobs[at]),
        ),
        serve::job_reply(s, peer, None) is Err,
{
    let test = serve::asked_by(s, peer, id);
    search::lemma_first(s.jobs, test);
    if 0 <= at < s.jobs.len() && s.jobs[at].id == id && s.jobs[at].from == peer && s.jobs[at].body
        == s.body_name && (forall|j: int| 0 <= j < at ==> (#[trigger] s.jobs[j]).id != id) {
        search::lemma_first_at(s.jobs, test, at);
    }
}

/// A job that is known here is answered without a free place; a new one needs one.
pub proof fn law_known_job_needs_no_place(s: StoreModel, free: bool, id: Seq<char>)
    ensures
        ({
            let known = exists|i: int| 0 <= i < s.jobs.len() && (#[trigger] s.jobs[i]).id == id;
            &&& known ==> serve::slot_outcome(s, free, id) == Ok::<bool, ErrorModel>(false)
            &&& !known && free ==> serve::slot_outcome(s, free, id) == Ok::<bool, ErrorModel>(true)
            &&& !known && !free ==> serve::slot_outcome(s, free, id) == Err::<bool, ErrorModel>(
                ErrorModel::Capacity("execution admission is busy; waiting for capacity"@),
            )
        }),
{
    let test = job::job_with_id(id);
    search::lemma_first(s.jobs, test);
    if exists|i: int| 0 <= i < s.jobs.len() && (#[trigger] s.jobs[i]).id == id {
        let i = choose|i: int| 0 <= i < s.jobs.len() && (#[trigger] s.jobs[i]).id == id;
        assert(test(s.jobs[i]));
    }
}

/// A peer's request is recorded in that peer's own name.
pub proof fn law_request_in_its_own_name(
    s: StoreModel,
    peer: Seq<char>,
    tool: Seq<char>,
    delivery_id: Option<Seq<char>>,
    fresh_id: Seq<char>,
)
    ensures
        tool.len() > 0 ==> serve::request_reply(s, peer, Some(tool), delivery_id, fresh_id)
            == request::received(s, peer, tool, delivery_id, fresh_id),
        tool.len() == 0 ==> serve::request_reply(s, peer, Some(tool), delivery_id, fresh_id).0 == s
            && serve::request_reply(s, peer, Some(tool), delivery_id, fresh_id).1 is Err,
        serve::request_reply(s, peer, None, delivery_id, fresh_id).0 == s,
        serve::request_reply(s, peer, None, delivery_id, fresh_id).1 is Err,
{
}

/// Once a save has failed nothing is changed any more, and before that everything may.
pub proof fn law_failed_save_closes(s: StoreModel, next: StoreModel, e: ErrorModel)
    ensures
        store::writable_outcome(s) is Ok <==> s.write_error is None,
        store::settled(s, next, Ok::<(), ErrorModel>(())) == next,
        store::settled(s, next, Err::<(), ErrorModel>(e)) == (StoreModel {
            write_error: Some(e.message()),
            ..s
        }),
        store::writable_outcome(store::settled(s, next, Err::<(), ErrorModel>(e))) is Err,
{
}

/// A fault means that the other machine may be back later, unless its name is
/// unknown or the fault is of no known kind.
pub proof fn law_which_faults_pass(fault: NetworkFault)
    ensures
        mesh::transient(fault) <==> !(fault is Other) && !(fault is NotFound),
{
}

/// A job is put in place of the one with its ID, or else behind all others.
pub proof fn law_job_is_put_in_its_place(jobs: Seq<JobModel>, put: JobModel, at: int)
    ensures
        (forall|j: int| 0 <= j < jobs.len() ==> (#[trigger] jobs[j]).id != put.id)
            ==> store::with_job(jobs, put) == jobs.push(put),
        0 <= at < jobs.len() && jobs[at].id == put.id && (forall|j: int|
            0 <= j < at ==> (#[trigger] jobs[j]).id != put.id) ==> store::with_job(jobs, put)
            == jobs.update(at, put),
{
    let test = job::job_with_id(put.id);
    search::lemma_first(jobs, test);
    if 0 <= at < jobs.len() && jobs[at].id == put.id && (forall|j: int|
        0 <= j < at ==> (#[trigger] jobs[j]).id != put.id) {
        search::lemma_first_at(jobs, test, at);
    }
}

/// A search that has tried every machine stays where it is.
pub proof fn law_search_ends(search: JoinSearchModel, e: ErrorModel)
    requires
        search.tried == search.peers.len(),
    ensures
        search.next() is None,
        search.failed(e).tried == search.tried,
        search.failed(e).last == Some(e),
{
}

/// A name made from another keeps what that begins with, from its first letter or digit
/// on.
pub proof fn law_name_starts_with_a_letter(s: Seq<char>, n: int)
    requires
        0 <= n <= s.len(),
        forall|i: int|
            0 <= i < n ==> !('a' <= #[trigger] s[i] <= 'z' || 'A' <= s[i] <= 'Z' || '0' <= s[i]
                <= '9'),
        n < s.len() ==> ('a' <= s[n] <= 'z' || 'A' <= s[n] <= 'Z' || '0' <= s[n] <= '9'),
    ensures
        pair::from_letter(s) == s.skip(n),
    decreases n,
{
    if n == 0 {
        assert(s.skip(0) =~= s);
    } else {
        assert(!('a' <= s[0] <= 'z' || 'A' <= s[0] <= 'Z' || '0' <= s[0] <= '9'));
        let rest = s.skip(1);
        assert forall|i: int| 0 <= i < n - 1 implies !('a' <= #[trigger] rest[i] <= 'z' || 'A'
            <= rest[i] <= 'Z' || '0' <= rest[i] <= '9') by {
            assert(rest[i] == s[i + 1]);
        }
        law_name_starts_with_a_letter(rest, n - 1);
        assert(rest.skip(n - 1) =~= s.skip(n));
    }
}

} // verus!
