use babelbye::ids::UserId;
use babelbye::protocol::ServerEvent;
use babelbye::registry::WsState;
use tokio::sync::mpsc::unbounded_channel;

fn error(text: &str) -> ServerEvent {
    ServerEvent::Error { message: text.to_string() }
}

#[test]
fn second_registration_replaces_the_first() {
    let user = UserId(7);
    let mut registry = WsState::new();
    let (first, mut first_rx) = unbounded_channel();
    let (second, mut second_rx) = unbounded_channel();
    registry.register(user, first);
    registry.register(user, second);
    assert!(registry.is_registered(user));
    assert!(registry.send(user, error("x")));
    assert_eq!(second_rx.try_recv().unwrap(), error("x"));
    assert!(first_rx.try_recv().is_err());
}

#[test]
fn send_without_session_is_a_silent_no_op() {
    let registry = WsState::new();
    assert!(!registry.is_registered(UserId(1)));
    assert!(!registry.send(UserId(1), error("x")));
}

#[test]
fn unregister_is_idempotent() {
    let user = UserId(3);
    let mut registry = WsState::new();
    let (tx, _rx) = unbounded_channel();
    registry.register(user, tx);
    registry.unregister(user);
    assert!(!registry.is_registered(user));
    registry.unregister(user);
    assert!(!registry.is_registered(user));
    assert!(!registry.send(user, error("x")));
}

#[test]
fn send_to_closed_session_is_dropped() {
    let user = UserId(4);
    let mut registry = WsState::new();
    let (tx, rx) = unbounded_channel();
    registry.register(user, tx);
    drop(rx);
    assert!(!registry.send(user, error("x")));
    assert!(registry.is_registered(user));
}

#[test]
fn other_users_are_untouched() {
    let mut registry = WsState::new();
    let (tx1, mut rx1) = unbounded_channel();
    let (tx2, _rx2) = unbounded_channel();
    registry.register(UserId(1), tx1);
    registry.register(UserId(2), tx2);
    registry.unregister(UserId(2));
    assert!(registry.send(UserId(1), error("y")));
    assert_eq!(rx1.try_recv().unwrap(), error("y"));
}

#[test]
fn replaced_session_cleanup_keeps_the_newer_session() {
    let user = UserId(9);
    let mut registry = WsState::new();
    let (old_tx, _old_rx) = unbounded_channel();
    let old_marker = old_tx.clone();
    let (new_tx, mut new_rx) = unbounded_channel();
    let new_marker = new_tx.clone();
    registry.register(user, old_tx);
    registry.register(user, new_tx);
    assert!(!registry.unregister_session(user, &old_marker));
    assert!(registry.send(user, error("still here")));
    assert_eq!(new_rx.try_recv().unwrap(), error("still here"));
    assert!(registry.unregister_session(user, &new_marker));
    assert!(!registry.is_registered(user));
    assert!(!registry.unregister_session(user, &new_marker));
}

#[test]
fn sink_for_gives_the_registered_queue() {
    let user = UserId(11);
    let mut registry = WsState::new();
    assert!(registry.sink_for(user).is_none());
    let (tx, mut rx) = unbounded_channel();
    let marker = tx.clone();
    registry.register(user, tx);
    let sink = registry.sink_for(user).unwrap();
    assert!(sink.same_channel(&marker));
    assert!(registry.sink_for(UserId(12)).is_none());
    assert!(registry.send(user, error("only here")));
    assert_eq!(rx.try_recv().unwrap(), error("only here"));
    assert!(rx.try_recv().is_err());
}
