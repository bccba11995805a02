//! What owners decide about requests, and what they were asked.

use clix::grant::add;
use clix::request::{decide, receive, upsert, Decision};
use clix::{BodyId, Grant, Peer, Request, Result, Store};

fn which(tool: &str) -> Result<String> {
    Ok(format!("/usr/bin/{tool}"))
}

/// An edit as a state owner makes it: prepared on a copy, and kept only whole.
fn update<T>(store: &mut Store, edit: impl FnOnce(&mut Store) -> Result<T>) -> Result<T> {
    store.ensure_writable()?;
    let mut next = store.clone();
    let value = edit(&mut next)?;
    let next = store.prepare_update(next, "epoch".into())?;
    store.admit_encoded(&next, 0, 0)?;
    store.finish_update(next, Ok(()))?;
    Ok(value)
}

fn laptop(peers: &[&str]) -> Store {
    let mut store = Store::fresh("/state".into(), "laptop".into(), vec![7; 32]);
    for name in peers {
        store.peers.push(Peer {
            name: BodyId(name.to_string()),
            owner_pk: vec![1; 32],
            addr: None,
        });
    }
    store
}

fn ask(store: &mut Store, from: &str, tool: &str) -> Request {
    let id = format!("request-{}-{}", from, store.requests.len() + 1);
    update(store, |s| upsert(s, BodyId(from.into()), tool, id)).unwrap()
}

fn answer(store: &mut Store, id: &str, action: &str) -> Result<Option<Grant>> {
    update(store, |s| {
        let tool = s
            .requests
            .iter()
            .find(|r| r.id == id)
            .map(|r| r.tool.clone())
            .unwrap_or_default();
        decide(s, id, Decision::from_action(action)?, which(&tool))
    })
}

#[test]
fn native_allow_grants_only_the_requesting_machine_persistently() {
    let mut store = laptop(&["server", "phone"]);
    let req = ask(&mut store, "server", "true");
    answer(&mut store, &req.id, "allow").unwrap();
    let g = &store.grants[0];
    assert!(!g.once, "machine-scoped allow is persistent");
    assert_eq!(g.allow_from, Some(vec![BodyId("server".into())]));
}

#[test]
fn approval_never_silently_replaces_a_differing_grant() {
    let mut store = laptop(&["server", "phone"]);
    // Owner has already granted `true` to the server only.
    update(&mut store, |s| {
        add(s, "true", &vec!["server".into()], false, None, None, which("true"))
    })
    .unwrap();

    // A request from phone for the same tool must NOT be approvable in a way
    // that drops the server-only scope: it is refused, grant untouched.
    let req = ask(&mut store, "phone", "true");
    let before = store.grants.clone();
    let err = answer(&mut store, &req.id, "once").unwrap_err();
    assert!(err.message().contains("clix add"), "{}", err.message());
    assert_eq!(store.grants, before);
    // The request stays pending for the owner to handle explicitly.
    assert!(store.requests.iter().any(|r| r.id == req.id));

    // Approving a request for a tool with no existing grant still works.
    let fresh = ask(&mut store, "phone", "false");
    answer(&mut store, &fresh.id, "once").unwrap();
    assert_eq!(store.grants.len(), 2);
}

#[test]
fn native_decisions_keep_their_scope_and_failed_persistence_keeps_the_request() {
    let mut store = laptop(&["server"]);
    let req = ask(&mut store, "server", "true");
    answer(&mut store, &req.id, "default").unwrap();
    assert!(store.grants[0].once);
    assert_eq!(
        store.grants[0].allow_from,
        Some(vec![BodyId("server".into())])
    );
    // A second approval for the same tool that would change the grant is
    // refused rather than silently replacing it; the first grant stands.
    let req = ask(&mut store, "server", "true");
    assert!(answer(&mut store, &req.id, "allow").is_err());
    assert!(store.grants[0].once);
    assert_eq!(
        store.grants[0].allow_from,
        Some(vec![BodyId("server".into())])
    );
    let req = ask(&mut store, "server", "false");
    let before = store.grants.clone();
    // A save that fails keeps what was there and refuses every later change.
    let mut next = store.clone();
    decide(
        &mut next,
        &req.id,
        Decision::from_action("once").unwrap(),
        which("false"),
    )
    .unwrap();
    let next = store.prepare_update(next, "epoch".into()).unwrap();
    assert!(store
        .finish_update(next, Err(clix::ClixError::Io("is a directory".into())))
        .is_err());
    assert_eq!(store.grants, before);
    assert!(store.requests.iter().any(|r| r.id == req.id));
    let refused = store.ensure_writable().unwrap_err().message();
    assert!(refused.starts_with("Clix storage is unavailable: "), "{refused}");
    assert!(update(&mut store, |_| Ok(())).is_err());
}

#[test]
fn a_request_delivered_again_is_asked_once() {
    let mut store = laptop(&["server"]);
    let server = BodyId("server".into());
    let first = update(&mut store, |s| {
        receive(s, server.clone(), "true", Some("delivery-1"), "fresh-1".into())
    })
    .unwrap();
    answer(&mut store, &first.id, "deny").unwrap();
    assert!(store.requests.is_empty());
    let again = update(&mut store, |s| {
        receive(s, server.clone(), "true", Some("delivery-1"), "fresh-2".into())
    })
    .unwrap();
    assert_eq!(again, first);
    assert!(store.requests.is_empty(), "a denied request is not asked again");
    let e = update(&mut store, |s| {
        receive(s, server.clone(), "false", Some("delivery-1"), "fresh-3".into())
    })
    .unwrap_err();
    assert!(e.message().contains("request ID"), "{}", e.message());
    assert_eq!(ask(&mut store, "server", "true"), ask(&mut store, "server", "true"));
}

#[test]
fn decisions_are_named_and_ask_for_a_known_request() {
    assert!(Decision::from_action("later").is_err());
    let mut store = laptop(&["server"]);
    assert!(answer(&mut store, "nobody", "once").is_err());
    let req = ask(&mut store, "server", "true");
    let granted = answer(&mut store, &req.id, "deny").unwrap();
    assert!(granted.is_none());
    assert!(store.grants.is_empty());
    assert!(store.requests.is_empty());
}
