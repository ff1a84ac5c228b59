use muninn_kernel::error::{PipeError, SigcallError};
use muninn_kernel::frame::Frame;
use muninn_kernel::sigcall::SigcallRegistry;
use std::sync::{Arc, Mutex};
use tokio::sync::mpsc;

fn registry_and_tx() -> (SigcallRegistry, mpsc::Sender<Frame>) {
    let reg = SigcallRegistry::new();
    let (tx, _rx) = mpsc::channel(16);
    (reg, tx)
}

#[test]
fn register_and_lookup() {
    let (mut reg, tx) = registry_and_tx();
    reg.register("window:create", "displayd", tx).unwrap();

    assert!(reg.lookup("window:create").is_some());
    assert!(reg.lookup("window:delete").is_none());
}

#[test]
fn lookup_gives_the_registered_channel() {
    let mut reg = SigcallRegistry::default();
    let (tx, mut rx) = mpsc::channel(16);
    let (other, _other_rx) = mpsc::channel(16);
    reg.register("window:create", "displayd", tx.clone()).unwrap();
    reg.register("window:delete", "displayd", other).unwrap();
    let found = reg.lookup("window:create").unwrap();
    assert!(found.same_channel(&tx));
    found.try_send(Frame::request("window:create")).unwrap();
    assert_eq!(rx.try_recv().unwrap().call, "window:create");
}

#[test]
fn register_same_owner_updates() {
    let (mut reg, tx1) = registry_and_tx();
    let (tx2, _rx2) = mpsc::channel(16);

    reg.register("ai:task", "agent-1", tx1).unwrap();
    reg.register("ai:task", "agent-1", tx2.clone()).unwrap();

    assert_eq!(reg.len(), 1);
    assert!(reg.lookup("ai:task").unwrap().same_channel(&tx2));
}

#[test]
fn register_different_owner_fails() {
    let (mut reg, tx1) = registry_and_tx();
    let (tx2, _rx2) = mpsc::channel(16);

    reg.register("ai:task", "agent-1", tx1.clone()).unwrap();
    let err = reg.register("ai:task", "agent-2", tx2).unwrap_err();

    assert!(matches!(err, SigcallError::AlreadyRegistered { .. }));
    assert!(reg.lookup("ai:task").unwrap().same_channel(&tx1));
}

#[test]
fn register_reserved_prefix_fails() {
    let (mut reg, tx) = registry_and_tx();
    let err = reg.register("sigcall:register", "sneaky", tx).unwrap_err();
    assert!(matches!(err, SigcallError::Reserved { .. }));
    assert!(reg.is_empty());
}

#[test]
fn names_close_to_reserved_ones_are_free() {
    let (mut reg, tx) = registry_and_tx();
    reg.register("sigcall", "a", tx.clone()).unwrap();
    reg.register("sigcalls:x", "a", tx.clone()).unwrap();
    reg.register("x:sigcall:", "a", tx.clone()).unwrap();
    assert!(reg.register("sigcall:", "a", tx).is_err());
    assert_eq!(reg.len(), 3);
}

#[test]
fn unregister_by_owner() {
    let (mut reg, tx) = registry_and_tx();
    reg.register("window:create", "displayd", tx).unwrap();
    reg.unregister("window:create", "displayd").unwrap();

    assert!(reg.lookup("window:create").is_none());
    assert!(reg.is_empty());
}

#[test]
fn unregister_wrong_owner_fails() {
    let (mut reg, tx) = registry_and_tx();
    reg.register("window:create", "displayd", tx).unwrap();

    let err = reg.unregister("window:create", "other").unwrap_err();
    assert!(matches!(err, SigcallError::NotOwner { .. }));
    assert_eq!(reg.len(), 1);
}

#[test]
fn unregister_nonexistent_fails() {
    let mut reg = SigcallRegistry::new();
    let err = reg.unregister("window:create", "displayd").unwrap_err();
    assert!(matches!(err, SigcallError::NotRegistered { .. }));
}

#[test]
fn unregister_all_removes_only_owner() {
    let (mut reg, tx1) = registry_and_tx();
    let (tx2, _rx2) = mpsc::channel(16);

    reg.register("ai:task", "agent-1", tx1).unwrap();
    reg.register("window:create", "displayd", tx2).unwrap();

    reg.unregister_all("agent-1");

    assert!(reg.lookup("ai:task").is_none());
    assert!(reg.lookup("window:create").is_some());
    assert_eq!(reg.len(), 1);
}

#[test]
fn unregister_all_on_empty_is_noop() {
    let mut reg = SigcallRegistry::new();
    reg.unregister_all("nobody");
    assert!(reg.is_empty());
}

#[test]
fn unregister_all_removes_every_name_of_an_owner() {
    let (mut reg, tx) = registry_and_tx();
    for name in ["a:1", "b:2", "c:3", "d:4"] {
        reg.register(name, "x", tx.clone()).unwrap();
    }
    reg.register("e:5", "y", tx.clone()).unwrap();
    reg.unregister_all("x");
    reg.unregister_all("x");
    assert_eq!(reg.list(), vec![("e:5".to_string(), "y".to_string())]);
}

#[test]
fn list_returns_all_entries() {
    let (mut reg, tx1) = registry_and_tx();
    let (tx2, _rx2) = mpsc::channel(16);

    reg.register("ai:task", "agent-1", tx1).unwrap();
    reg.register("window:create", "displayd", tx2).unwrap();

    let mut entries = reg.list();
    entries.sort_by(|a, b| a.0.cmp(&b.0));

    assert_eq!(entries.len(), 2);
    assert_eq!(entries[0], ("ai:task".into(), "agent-1".into()));
    assert_eq!(entries[1], ("window:create".into(), "displayd".into()));
}

#[test]
fn names_are_found_after_others_have_gone() {
    let mut reg = SigcallRegistry::new();
    let names = ["a:1", "b:2", "c:3", "d:4", "e:5"];
    let mut channels = Vec::new();
    for name in names {
        let (tx, rx) = mpsc::channel::<Frame>(1);
        reg.register(name, "x", tx.clone()).unwrap();
        channels.push((tx, rx));
    }
    reg.unregister("b:2", "x").unwrap();
    reg.unregister("e:5", "x").unwrap();
    reg.unregister("a:1", "x").unwrap();
    assert_eq!(reg.len(), 2);
    for (i, name) in names.iter().enumerate() {
        match reg.lookup(name) {
            Some(tx) => assert!((i == 2 || i == 3) && tx.same_channel(&channels[i].0)),
            None => assert!(i != 2 && i != 3),
        }
    }
}

#[test]
fn is_empty_and_len() {
    let (mut reg, tx) = registry_and_tx();
    assert!(reg.is_empty());
    assert_eq!(reg.len(), 0);

    reg.register("test:op", "owner", tx).unwrap();
    assert!(!reg.is_empty());
    assert_eq!(reg.len(), 1);
}

#[test]
fn sigcall_test_clone_shares_state() {
    let (reg, tx) = registry_and_tx();
    let reg = Arc::new(Mutex::new(reg));
    let reg2 = Arc::clone(&reg);

    reg.lock().unwrap().register("test:op", "owner", tx).unwrap();
    assert!(reg2.lock().unwrap().lookup("test:op").is_some());
}

#[test]
fn errors_have_messages() {
    let (mut reg, tx) = registry_and_tx();
    reg.register("a:b", "one", tx.clone()).unwrap();
    let taken = reg.register("a:b", "two", tx.clone()).unwrap_err();
    assert_eq!(
        taken.message(),
        "sigcall \"a:b\" already registered by \"one\""
    );
    let foreign = reg.unregister("a:b", "tw\"o").unwrap_err();
    assert_eq!(
        foreign.message(),
        "sigcall \"a:b\" owned by \"one\", not \"tw\\\"o\""
    );
    let missing = reg.unregister("a:c", "one").unwrap_err();
    assert_eq!(missing.message(), "sigcall \"a:c\" not registered");
    let reserved = reg.register("sigcall:x", "one", tx).unwrap_err();
    assert_eq!(
        reserved.message(),
        "cannot register reserved prefix: \"sigcall:x\""
    );
    assert_eq!(PipeError::Closed.message(), "channel closed");
    assert_eq!(
        PipeError::SendFailed.message(),
        "send failed: channel full or closed"
    );
    assert_eq!(
        PipeError::Serialization("boom".to_string()).message(),
        "serialization failed: boom"
    );
}
