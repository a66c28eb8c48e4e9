use vstd::prelude::*;
use std::collections::HashMap;
use tokio::sync::mpsc::UnboundedSender;
use crate::ids::UserId;
use crate::protocol::ServerEvent;

verus! {

broadcast use vstd::std_specs::hash::group_hash_axioms;

#[verifier::external_type_specification]
#[verifier::external_body]
#[verifier::reject_recursive_types(T)]
pub struct ExUnboundedSender<T>(UnboundedSender<T>);

/// Relies on tokio's `UnboundedSender::send`: queues the event without
/// blocking unless the receiving half is closed. Whether it was queued depends
/// on the peer, so nothing is promised of the result.
#[verifier::external_body]
fn enqueue(sink: &UnboundedSender<ServerEvent>, event: ServerEvent) -> (queued: bool) {
    sink.send(event).is_ok()
}

/// Relies on tokio's `UnboundedSender::same_channel`: whether two senders
/// feed the same queue. That is a matter of identity, not of value, so
/// nothing is promised of the result.
#[verifier::external_body]
fn same_queue(a: &UnboundedSender<ServerEvent>, b: &UnboundedSender<ServerEvent>) -> (r: bool) {
    a.same_channel(b)
}

/// The registry of live sessions: for each user with a live session, the
/// outbound queue of that session. A user has at most one entry.
pub struct WsState {
    clients: HashMap<u128, UnboundedSender<ServerEvent>>,
}

impl View for WsState {
    /// The outbound queue of each registered user, keyed by the user's bits.
    type V = Map<u128, UnboundedSender<ServerEvent>>;

    closed spec fn view(&self) -> Map<u128, UnboundedSender<ServerEvent>> {
        self.clients@
    }
}

impl WsState {
    /// An empty registry.
    pub fn new() -> (r: WsState)
        ensures
            r@ == Map::<u128, UnboundedSender<ServerEvent>>::empty(),
    {
        WsState { clients: HashMap::new() }
    }

    /// Makes `sink` the queue of `user`'s session, replacing any earlier one
    /// (which is dropped from the registry, not closed by it).
    pub fn register(&mut self, user: UserId, sink: UnboundedSender<ServerEvent>)
        ensures
            final(self)@ == old(self)@.insert(user.0, sink),
    {
        self.clients.insert(user.0, sink);
    }

    /// Forgets `user`'s session, if there is one.
    pub fn unregister(&mut self, user: UserId)
        ensures
            final(self)@ == old(self)@.remove(user.0),
    {
        self.clients.remove(&user.0);
    }

    /// The queue registered for `user`, if any.
    pub fn sink_for(&self, user: UserId) -> (r: Option<&UnboundedSender<ServerEvent>>)
        ensures
            match r {
                Some(sink) => self@.contains_key(user.0) && *sink == self@[user.0],
                None => !self@.contains_key(user.0),
            },
    {
        self.clients.get(&user.0)
    }

    /// Forgets `user`'s session if `sink` still feeds its registered queue
    /// (the one `sink_for` gives); a newer session that replaced it stays.
    /// Returns whether it was removed.
    pub fn unregister_session(&mut self, user: UserId, sink: &UnboundedSender<ServerEvent>) -> (removed:
        bool)
        ensures
            removed ==> old(self)@.contains_key(user.0) && final(self)@ == old(self)@.remove(user.0),
            !removed ==> final(self)@ == old(self)@,
    {
        let current = match self.sink_for(user) {
            Some(registered) => same_queue(registered, sink),
            None => false,
        };
        if current {
            self.clients.remove(&user.0);
        }
        current
    }

    /// Whether `user` has a live session.
    pub fn is_registered(&self, user: UserId) -> (r: bool)
        ensures
            r == self@.contains_key(user.0),
    {
        self.clients.contains_key(&user.0)
    }

    /// Queues `event` on `user`'s session: on the queue that `sink_for`
    /// gives, and on no other. Without a session this does nothing: there is
    /// no queue for later, and no error. Returns whether the event was queued;
    /// a queue whose session is gone drops it.
    pub fn send(&self, user: UserId, event: ServerEvent) -> (queued: bool)
        ensures
            queued ==> self@.contains_key(user.0),
    {
        match self.sink_for(user) {
            Some(sink) => enqueue(sink, event),
            None => false,
        }
    }
}

/// Last handshake wins: after two registrations for one user, the user has
/// exactly one entry, the queue registered last, and every other user's entry
/// is what it was before both.
pub proof fn lemma_last_registration_wins(
    registry: Map<u128, UnboundedSender<ServerEvent>>,
    user: UserId,
    first: UnboundedSender<ServerEvent>,
    second: UnboundedSender<ServerEvent>,
)
    ensures
        registry.insert(user.0, first).insert(user.0, second) == registry.insert(user.0, second),
        registry.insert(user.0, first).insert(user.0, second)[user.0] == second,
{
    assert(registry.insert(user.0, first).insert(user.0, second) =~= registry.insert(user.0, second));
}

} // verus!
