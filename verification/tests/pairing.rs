use clix::pair::exchange::{begin_pairing, settle_exchange};
use clix::pair::handshake::{JoinSearch, PairAction, PairEvent, PairIdentity, PairRun};
use clix::pair::owner_pk;
use clix::tailscale::PeerAddr;
use clix::{BodyId, ClixError, Peer};
use clix::phrase;
use clix::pair::sanitize_name;
use clix::words::word_list;

#[test]
fn phrase_is_three_wordlist_words() {
    let list = word_list();
    let words: Vec<&str> = list.iter().map(String::as_str).collect();
    assert_eq!(words.len(), 256);
    let p = phrase([7, 130, 255]);
    let parts: Vec<&str> = p.split('-').collect();
    assert_eq!(parts.len(), 3, "{p}");
    for w in &parts {
        assert!(words.contains(w), "{w} not in word list");
        assert!(w.chars().all(|c| c.is_ascii_lowercase()), "{w}");
    }
    assert_eq!(parts, vec![words[7], words[130], words[255]]);
}

#[test]
fn hostname_default_is_sanitized_into_a_valid_body_name() {
    assert_eq!(sanitize_name("devbox.example.com"), "devbox");
    assert_eq!(sanitize_name("-weird name!"), "weirdname");
    assert_eq!(sanitize_name(""), "clix");
    assert_eq!(sanitize_name("...."), "clix");
    assert_eq!(sanitize_name("laptop-1"), "laptop-1");
    for raw in ["devbox.example.com", "", "....", "-weird name!", "laptop-1"] {
        let name = sanitize_name(raw);
        assert!(
            name.bytes().next().is_some_and(|b| b.is_ascii_alphanumeric()),
            "sanitized {raw:?} -> {name:?} is not a valid body name"
        );
    }
}

fn side(joiner: bool, phrase: &str, name: &str, seed: u8) -> PairRun {
    PairRun::start(
        joiner,
        phrase,
        name.into(),
        owner_pk(&vec![seed; 32]).unwrap(),
        format!("100.64.0.{seed}:7421"),
    )
}

fn understood(payload: &[u8]) -> Option<PairIdentity> {
    let value: serde_json::Value = serde_json::from_slice(payload).ok()?;
    Some(PairIdentity {
        name: value["name"].as_str()?.into(),
        owner_pk: value["owner_pk"]
            .as_array()?
            .iter()
            .map(|b| b.as_u64().unwrap() as u8)
            .collect(),
        addr: value["addr"].as_str().map(|a| a.into()),
    })
}

/// One step of a side: what it sends goes to `out`, what it receives comes from `come`.
fn step(
    run: &mut PairRun,
    come: &mut Vec<Vec<u8>>,
    out: &mut Vec<Vec<u8>>,
    met: &mut Vec<PairIdentity>,
) -> clix::Result<bool> {
    let event = match run.next() {
        PairAction::Send(bytes) => {
            out.push(bytes);
            PairEvent::Sent
        }
        PairAction::Receive if come.is_empty() => return Ok(false),
        PairAction::Receive => PairEvent::Received(come.remove(0)),
        PairAction::Read(payload) => PairEvent::Understood(understood(&payload)),
        PairAction::Keep(who) => {
            let peer = Peer {
                name: BodyId(who.name.clone()),
                owner_pk: who.owner_pk.clone(),
                addr: who.addr.clone(),
            };
            met.push(who);
            PairEvent::Kept(Ok(peer))
        }
        PairAction::Done => return Ok(true),
    };
    run.advance(event)?;
    Ok(false)
}

fn meet(a: &mut PairRun, b: &mut PairRun) -> clix::Result<(Vec<PairIdentity>, Vec<PairIdentity>)> {
    let (mut to_a, mut to_b) = (Vec::new(), Vec::new());
    let (mut by_a, mut by_b) = (Vec::new(), Vec::new());
    for _ in 0..20 {
        let first = step(a, &mut to_a, &mut to_b, &mut by_a)?;
        let second = step(b, &mut to_b, &mut to_a, &mut by_b)?;
        if first && second {
            return Ok((by_a, by_b));
        }
    }
    panic!("the pairing did not end");
}

#[test]
fn two_machines_with_one_phrase_meet() {
    let mut joiner = side(true, "able-acid-army", "laptop", 1);
    let mut listener = side(false, "able-acid-army", "server", 2);
    let (by_joiner, by_listener) = meet(&mut joiner, &mut listener).unwrap();
    assert_eq!(by_joiner.len(), 1);
    assert_eq!(by_joiner[0].name, "server");
    assert_eq!(by_joiner[0].owner_pk, owner_pk(&vec![2; 32]).unwrap());
    assert_eq!(by_listener.len(), 1);
    assert_eq!(by_listener[0].name, "laptop");
    assert_eq!(by_listener[0].addr.as_deref(), Some("100.64.0.1:7421"));
}

#[test]
fn another_phrase_introduces_no_one() {
    let mut joiner = side(true, "able-acid-army", "laptop", 1);
    let mut listener = side(false, "able-acid-atom", "server", 2);
    let error = meet(&mut joiner, &mut listener).unwrap_err();
    assert_eq!(error.message(), "phrase did not match");
    let (joined, ours) = begin_pairing(true, "able-acid-army");
    assert_eq!((ours.len(), ours[0]), (33, 0x41));
    assert!(settle_exchange(joined, &ours).is_err(), "a message of our own side");
    let (heard, theirs) = begin_pairing(false, "able-acid-army");
    assert_eq!((theirs.len(), theirs[0]), (33, 0x42));
    assert_eq!(settle_exchange(heard, &ours).unwrap().len(), 32);
    let (short, _) = begin_pairing(false, "able-acid-army");
    assert!(settle_exchange(short, &vec![0x41]).is_err());
}

#[test]
fn a_pairing_keeps_its_order() {
    let mut listener = side(false, "able-acid-army", "server", 2);
    assert!(matches!(listener.next(), PairAction::Receive));
    assert_eq!(
        listener.advance(PairEvent::Sent).unwrap_err().message(),
        "pairing is out of order"
    );
    assert!(matches!(listener.next(), PairAction::Done));
    let mut joiner = side(true, "able-acid-army", "laptop", 1);
    assert!(matches!(joiner.next(), PairAction::Send(_)));
    assert_eq!(joiner.advance(PairEvent::Lost).unwrap_err().message(), "phrase did not match");
}

#[test]
fn a_search_tries_everyone_and_keeps_the_last_reason() {
    let peer = |ip: &str| PeerAddr { name: ip.into(), ipv4: ip.into() };
    let mut search = JoinSearch::start(vec![peer("100.64.0.1"), peer("100.64.0.2")], 7421);
    assert_eq!(search.next().as_deref(), Some("100.64.0.1:7421"));
    search.failed(ClixError::Io("refused".into()));
    assert_eq!(search.next().as_deref(), Some("100.64.0.2:7421"));
    search.silent();
    assert_eq!(search.next(), None);
    assert_eq!(search.end().message(), "no peer answered");
    assert_eq!(
        JoinSearch::start(vec![], 7421).end().message(),
        "no online Tailscale peers"
    );
}
