//! What machines tell each other, and how they find each other.

use clix::error::ClixError;
use clix::history::{self, Certificate, Invocation};
use clix::limits::Limits;
use clix::mesh::serve::{enter_certified, enter_plain, read_certified, read_job, serve_request};
use clix::mesh::{
    connect_err, frame, frame_length, mesh_op, network_error, preface, read_preface, reject,
    understand, MeshOp, NetworkFault, Preface,
};
use clix::pair::{identity_frame, open_identity, owner_pk, persist_peer};
use clix::transport::{
    alpn, check_alpn, expected_server, identify, identity, paired_client, peer_pk, public_key_der,
};
use clix::{BodyId, Job, JobStatus, Peer, Store};
use ed25519_dalek::pkcs8::{DecodePrivateKey, EncodePublicKey};
use ed25519_dalek::{Signer, SigningKey};

use clix::tailscale::{listen_addr, mesh_bind_addr, mesh_port, parse_status, Node, Report};
use clix::tailscale_status;

fn node(name: &str, ips: &[&str], online: bool) -> Node {
    Node {
        host_name: name.into(),
        ips: ips.iter().map(|ip| ip.to_string()).collect(),
        online,
    }
}

fn report() -> Report {
    Report {
        state: "Running".into(),
        own: Some(node("laptop", &["fd7a:115c:a1e0::10", "100.64.0.10"], true)),
        peers: vec![
            node("server", &["100.64.0.20", "fd7a:115c:a1e0::20"], true),
            node("secondary-server", &["100.64.0.30"], true),
            node("old-phone", &["100.64.0.40"], false),
        ],
    }
}

#[test]
fn parse_fixture_names_and_ips() {
    let st = parse_status(&report()).unwrap();
    assert_eq!(st.self_name, "laptop");
    assert_eq!(st.self_ipv4, "100.64.0.10");
    let peers: Vec<_> = st
        .peers
        .iter()
        .map(|p| (p.name.as_str(), p.ipv4.as_str()))
        .collect();
    assert_eq!(
        peers,
        vec![
            ("secondary-server", "100.64.0.30"),
            ("server", "100.64.0.20"),
        ]
    );
}

#[test]
fn mocked_tailscale_failing_is_off() {
    let err = tailscale_status(None).unwrap_err();
    assert_eq!(err.message(), "Tailscale is off. Start it, then pair.");
    let mut stopped = report();
    stopped.state = "Stopped".into();
    assert_eq!(
        tailscale_status(Some(stopped)).unwrap_err().message(),
        "Tailscale is off. Start it, then pair."
    );
    let mut bare = report();
    bare.own = None;
    assert!(tailscale_status(Some(bare)).is_err());
}

#[test]
fn the_mesh_listens_on_the_tailnet() {
    assert_eq!(mesh_port(None), 7421);
    assert_eq!(mesh_port(Some("9000")), 9000);
    assert_eq!(mesh_port(Some("0")), 7421);
    assert_eq!(mesh_port(Some("many")), 7421);
    let status = parse_status(&report()).unwrap();
    assert_eq!(mesh_bind_addr(&status, 7421), "100.64.0.10:7421");
    assert!(listen_addr(None, None, 7421).is_err());
    assert_eq!(
        listen_addr(Some("127.0.0.1:0"), None, 7421).unwrap(),
        "127.0.0.1:0"
    );
    assert_eq!(
        listen_addr(None, Some(report()), 7421).unwrap(),
        "100.64.0.10:7421"
    );
}

fn key(seed: u8) -> Vec<u8> {
    SigningKey::from_bytes(&[seed; 32])
        .verifying_key()
        .to_bytes()
        .to_vec()
}

fn machine(name: &str, seed: u8, peers: &[(&str, u8)]) -> Store {
    let mut store = Store::fresh("/state".into(), name.into(), vec![seed; 32]);
    for (name, seed) in peers {
        store.peers.push(Peer {
            name: BodyId(name.to_string()),
            owner_pk: key(*seed),
            addr: None,
        });
    }
    store
}

#[test]
fn missing_daemon_is_not_run_locally() {
    let e = connect_err(NetworkFault::NotFound, "No such file or directory");
    assert_eq!(e.message(), "Clix is not running. clix install");
    let e = connect_err(NetworkFault::ConnectionRefused, "Connection refused");
    assert_eq!(e.message(), "Clix is not running. clix install");
    let e = connect_err(NetworkFault::Other, "permission denied");
    assert!(matches!(e, ClixError::Io(_)));
}

#[test]
fn an_unreachable_machine_is_told_from_a_broken_one() {
    assert!(matches!(
        network_error(NetworkFault::ConnectionRefused, "refused"),
        ClixError::Unreachable
    ));
    let e = network_error(NetworkFault::Other, "bad record");
    assert_eq!(e.message(), "mesh transport failed: bad record");
}

#[test]
fn connections_announce_what_they_are_for() {
    assert_eq!(preface(Preface::Pair), b"CLXP1");
    assert_eq!(read_preface(b"CLXT1").unwrap(), Preface::Tls);
    assert!(read_preface(b"GET /").is_err());
    let sent = frame(&b"hello".to_vec()).unwrap();
    assert_eq!(sent, b"\0\0\0\x05hello");
    assert_eq!(frame_length([0, 0, 0, 5]).unwrap(), 5);
    assert_eq!(frame_length([4, 0, 0, 0]).unwrap(), 64 * 1024 * 1024);
    assert_eq!(
        frame_length([4, 0, 0, 1]).unwrap_err().message(),
        "Clix message exceeds 64 MiB"
    );
}

#[test]
fn owner_operations_stay_off_the_mesh() {
    assert_eq!(mesh_op("exec_v2").unwrap(), MeshOp::ExecV2);
    for op in ["add", "remove", "allow_request", "deny_request", "job_put", "pair_start", ""] {
        let e = mesh_op(op).unwrap_err();
        assert_eq!(e.message(), format!("{op} is not allowed over the mesh"));
    }
}

#[test]
fn what_a_peer_refuses_arrives_as_it_was_meant() {
    let full = ClixError::Capacity("no room".into());
    assert_eq!(understand(reject(&full)), full);
    assert_eq!(understand(reject(&ClixError::Unreachable)), ClixError::Unreachable);
    let conflict = ClixError::PinConflict {
        path: "f".into(),
        a: "x".into(),
        b: "y".into(),
    };
    assert_eq!(understand(reject(&conflict)), conflict);
    let other = ClixError::Usage("wrong".into());
    assert_eq!(
        understand(reject(&other)),
        ClixError::Protocol(other.message())
    );
}

#[test]
fn machines_know_each_other_by_their_keys() {
    let spki = public_key_der(&key(2)).unwrap();
    let expected = SigningKey::from_bytes(&[2; 32])
        .verifying_key()
        .to_public_key_der()
        .unwrap();
    assert_eq!(spki, expected.as_bytes());
    assert!(public_key_der(&[1; 5]).is_err());
    let document = identity(&[2; 32]).unwrap();
    assert_eq!(
        SigningKey::from_pkcs8_der(&document).unwrap().to_bytes(),
        [2; 32]
    );
    assert!(identity(&[2; 31]).is_err());
    assert!(expected_server(&spki, &spki, 0));
    assert!(!expected_server(&spki, &spki, 1));
    assert!(!expected_server(&spki, &public_key_der(&key(3)).unwrap(), 0));
    let mut store = machine("laptop", 1, &[("server", 2)]);
    assert!(paired_client(&store, &spki, 0));
    assert!(!paired_client(&store, &spki, 1));
    let stranger = public_key_der(&key(3)).unwrap();
    assert!(!paired_client(&store, &stranger, 0));
    store.peers.push(Peer {
        name: BodyId("phone".into()),
        owner_pk: key(3),
        addr: None,
    });
    assert!(paired_client(&store, &stranger, 0), "pairing takes effect at once");
    assert_eq!(peer_pk(Some(vec![spki.clone()])).unwrap(), key(2));
    assert!(peer_pk(Some(vec![spki.clone(), spki])).is_err());
    assert!(peer_pk(None).is_err());
    assert_eq!(identify(&store, &key(2)).unwrap().name.0, "server");
    assert!(identify(&store, &key(9)).is_err());
    check_alpn(Some(alpn())).unwrap();
    assert!(check_alpn(None).is_err());
    assert!(check_alpn(Some(b"h2".to_vec())).is_err());
}

#[test]
fn an_identity_opens_only_under_its_key() {
    let pk = owner_pk(&vec![4; 32]).unwrap();
    assert_eq!(pk, key(4));
    let sent = identity_frame(&vec![9; 32], "laptop", &pk, "100.64.0.10:7421");
    let body = open_identity(&vec![9; 32], &sent).unwrap();
    let value: serde_json::Value = serde_json::from_slice(&body).unwrap();
    assert_eq!(value["name"], "laptop");
    assert_eq!(value["addr"], "100.64.0.10:7421");
    assert!(open_identity(&vec![8; 32], &sent).is_err());
    let mut changed = sent.clone();
    let last = changed.len() - 1;
    changed[last] ^= 1;
    assert!(open_identity(&vec![9; 32], &changed).is_err());
    assert!(open_identity(&vec![9; 32], &vec![0; 3]).is_err());
}

#[test]
fn pairing_again_replaces_a_machine_and_refuses_commands_as_names() {
    let mut store = machine("laptop", 1, &[("server", 2)]);
    let peer = persist_peer(&mut store, "phone".into(), key(3), None, None).unwrap();
    assert_eq!(peer.name.0, "phone");
    assert_eq!(store.peers.len(), 2);
    persist_peer(&mut store, "server".into(), key(5), None, Some("100.64.0.20:9".into())).unwrap();
    assert_eq!(store.peers.len(), 2);
    assert_eq!(store.peers[0].owner_pk, key(5));
    assert_eq!(store.peers[0].addr.as_deref(), Some("100.64.0.20:9"));
    assert!(persist_peer(&mut store, "status".into(), key(6), None, None).is_err());
    assert!(persist_peer(&mut store, "bad name".into(), key(6), None, None).is_err());
    assert_eq!(store.peers.len(), 2);
}

fn signed(from: &str, from_seed: u8) -> Certificate {
    let invocation = Invocation {
        id: "00000000-0000-4000-8000-000000000001".into(),
        from: BodyId(from.into()),
        origin_key: key(from_seed),
        body: BodyId("laptop".into()),
        runner_key: key(1),
        argv: vec!["true".into()],
        retry_of: None,
        legacy_observer: None,
    };
    let text = history::wire::signed_message(
        "invocation",
        &history::wire::invocation_text(&invocation),
    );
    Certificate {
        signature: SigningKey::from_bytes(&[from_seed; 32])
            .sign(text.as_bytes())
            .to_bytes()
            .to_vec(),
        invocation,
    }
}

#[test]
fn only_the_asker_starts_and_reads_a_job() {
    let mut store = machine("laptop", 1, &[("server", 2), ("phone", 3)]);
    let mut limits = Limits::new();
    let c = signed("server", 2);
    let server = store.peers[0].clone();
    let phone = store.peers[1].clone();
    assert!(enter_certified(&store, &mut limits, &server, &c).unwrap());
    assert!(enter_certified(&store, &mut limits, &phone, &c).is_err());
    assert!(read_certified(&store, &server, &c).unwrap().is_none());
    store.jobs.push(Job {
        id: "j1".into(),
        body: BodyId("laptop".into()),
        argv: vec!["true".into()],
        from: BodyId("server".into()),
        status: JobStatus::Running,
        stdout: vec![],
        stderr: vec![],
    });
    assert!(read_job(&store, &server, Some("j1")).unwrap().is_some());
    assert!(matches!(read_job(&store, &phone, Some("j1")), Ok(None) | Err(_)));
    let argv = vec!["true".to_string()];
    for n in 0..3 {
        assert!(enter_plain(&store, &mut limits, &format!("p{n}"), &argv).unwrap());
    }
    let e = enter_plain(&store, &mut limits, "p4", &argv).unwrap_err();
    assert!(matches!(e, ClixError::Capacity(_)), "{}", e.message());
    let asked = serve_request(&mut store, &phone, Some("adb"), Some("d1"), "r1".into()).unwrap();
    assert_eq!(asked.from, BodyId("phone".into()), "the sender is the authenticated peer");
    assert!(serve_request(&mut store, &phone, None, None, "r2".into()).is_err());
}
