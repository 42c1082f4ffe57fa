//! The node: owner of the two unbounded queues that bridge synchronous
//! callers to the single event-loop task, of the shutdown signal, and of
//! the decision logic the event loop runs.
//!
//! The node itself never touches the network. Publishing enqueues wire
//! bytes; registering a subscriber enqueues a registration; the event-loop
//! task (which lives outside this crate, since it is asynchronous I/O)
//! pops both queues, feeds every occurrence into [`handle_event`], and
//! performs the returned action on the transport session.

use vstd::prelude::*;

use std::sync::atomic::AtomicBool;
use std::sync::atomic::Ordering;

use crate::envelope::encode_wire;
use crate::registry::{SubscriberBinding, TopicRegistry};

verus! {

/// How long shutdown keeps draining queued outgoing messages before the
/// event loop exits regardless, in milliseconds. A liveness bound, not a
/// delivery guarantee: messages still queued when it elapses are lost.
pub const DRAIN_TIMEOUT_MS: u64 = 2000;

/// An entry of the outgoing queue: wire bytes to publish on a topic.
pub struct OutgoingItem {
    pub topic: String,
    pub payload: Vec<u8>,
}

/// An entry of the registration queue: a topic and the subscriber binding
/// to install for it.
pub struct RegistrationItem {
    pub topic: String,
    pub binding: SubscriberBinding,
}

#[verifier::external_type_specification]
#[verifier::external_body]
#[verifier::reject_recursive_types(T)]
pub struct ExQueue<T>(deadqueue::unlimited::Queue<T>);

#[verifier::external_type_specification]
#[verifier::external_body]
pub struct ExNotify(tokio::sync::Notify);

/// Relies on deadqueue::unlimited::Queue::new: creates an empty unbounded
/// multi-producer queue.
#[verifier::external_body]
fn queue_new<T>() -> deadqueue::unlimited::Queue<T> {
    deadqueue::unlimited::Queue::new()
}

/// Relies on deadqueue::unlimited::Queue::push: appends one item; the
/// queue is unbounded, so pushing never blocks and never fails. Items
/// pushed by one thread are popped in that thread's push order (the queue
/// is a FIFO); nothing is promised here because other threads may push
/// and pop the same queue concurrently.
#[verifier::external_body]
fn queue_push<T>(q: &deadqueue::unlimited::Queue<T>, item: T) {
    q.push(item)
}

/// Relies on deadqueue::unlimited::Queue::try_pop: removes and returns the
/// front item, or `None` when the queue is empty at the moment of the
/// call. Which item is the front depends on what other threads pushed and
/// popped, so nothing more is promised of the result.
#[verifier::external_body]
fn queue_try_pop<T>(q: &deadqueue::unlimited::Queue<T>) -> Option<T> {
    q.try_pop()
}

/// Relies on deadqueue::unlimited::Queue::len: the number of items stored
/// at the moment of the call; stale as soon as it returns under
/// concurrent use.
#[verifier::external_body]
fn queue_len<T>(q: &deadqueue::unlimited::Queue<T>) -> usize {
    q.len()
}

/// Relies on tokio::sync::Notify::new: creates a notifier with no stored
/// permit and no waiters.
#[verifier::external_body]
fn notify_new() -> tokio::sync::Notify {
    tokio::sync::Notify::new()
}

/// Relies on tokio::sync::Notify::notify_waiters: wakes every task
/// currently waiting on the notifier; safe to call from any thread, any
/// number of times.
#[verifier::external_body]
fn notify_all(n: &tokio::sync::Notify) {
    n.notify_waiters()
}

/// Relies on std::time::SystemTime::now and SystemTime::duration_since:
/// the wall clock as whole seconds since the Unix epoch and the
/// microsecond remainder, which std documents (Duration::subsec_micros)
/// to be below one million. A clock set before the epoch reads as the
/// epoch instead of failing.
#[verifier::external_body]
fn now_unix() -> (r: (u64, u32))
    ensures
        r.1 < 1_000_000,
{
    let d = std::time::SystemTime::now().duration_since(std::time::UNIX_EPOCH).unwrap_or(
        std::time::Duration::ZERO,
    );
    (d.as_secs(), d.subsec_micros())
}

/// The node: the two queues every caller thread shares with the event
/// loop, and the shutdown signal (a flag plus a wake notification).
///
/// All methods take `&self` and are safe to call concurrently: the queues
/// are multi-producer by construction and the flag is atomic. Because the
/// queues are shared this way, no contract can track their contents; what
/// is verified is the exact bytes every enqueued message carries, through
/// the contracts of [`encode_wire`] and the publisher's framing.
pub struct Node {
    outgoing: deadqueue::unlimited::Queue<OutgoingItem>,
    registrations: deadqueue::unlimited::Queue<RegistrationItem>,
    shutdown_flag: AtomicBool,
    stop_notify: tokio::sync::Notify,
}

impl Node {
    /// Creates a node with empty queues and shutdown not requested.
    /// Creation is non-blocking and touches no network; the caller owns
    /// attaching (at most one) event-loop task.
    pub fn new() -> Node {
        Node {
            outgoing: queue_new(),
            registrations: queue_new(),
            shutdown_flag: AtomicBool::new(false),
            stop_notify: notify_new(),
        }
    }

    /// Stamps `frame` with the capture time and enqueues the wire bytes
    /// for `topic`. The enqueued payload is exactly
    /// `wire_bytes(secs, usecs, frame)` for the clock reading taken here;
    /// never blocks and never fails.
    pub fn publish_message(&self, topic: String, frame: Vec<u8>) {
        let (secs, usecs) = now_unix();
        let payload = encode_wire(secs, usecs, &frame);
        queue_push(&self.outgoing, OutgoingItem { topic, payload });
    }

    /// Enqueues a subscriber registration; the binding becomes observable
    /// only once the event loop applies it. Never blocks and never fails.
    pub fn notify_new_subscriber(&self, registration: RegistrationItem) {
        queue_push(&self.registrations, registration);
    }

    /// Removes the front outgoing item, if any. Consumed by the event
    /// loop; also the way tests observe what publishing enqueued.
    pub fn try_pop_outgoing(&self) -> Option<OutgoingItem> {
        queue_try_pop(&self.outgoing)
    }

    /// Removes the front registration, if any.
    pub fn try_pop_registration(&self) -> Option<RegistrationItem> {
        queue_try_pop(&self.registrations)
    }

    /// Number of outgoing items at the moment of the call.
    pub fn outgoing_len(&self) -> usize {
        queue_len(&self.outgoing)
    }

    /// Requests shutdown: sets the flag, then wakes the event loop.
    /// Idempotent and safe to call concurrently from any thread.
    pub fn trigger_shutdown(&self) {
        self.shutdown_flag.store(true, Ordering::SeqCst);
        notify_all(&self.stop_notify);
    }

    /// Whether shutdown has been requested. Read by the event loop after
    /// every wake-up so it never acts past a request it has seen.
    pub fn shutdown_requested(&self) -> bool {
        self.shutdown_flag.load(Ordering::SeqCst)
    }

    /// The notifier the event-loop task awaits for the shutdown wake-up.
    pub fn shutdown_signal(&self) -> &tokio::sync::Notify {
        &self.stop_notify
    }

    /// The outgoing queue itself, for the event-loop task to await on.
    pub fn outgoing_queue(&self) -> &deadqueue::unlimited::Queue<OutgoingItem> {
        &self.outgoing
    }

    /// The registration queue itself, for the event-loop task to await on.
    pub fn registration_queue(&self) -> &deadqueue::unlimited::Queue<RegistrationItem> {
        &self.registrations
    }
}

/// One occurrence the event loop multiplexes: a popped queue entry, a
/// transport event, or the shutdown signal.
pub enum NodeEvent {
    /// A registration popped from the registration queue.
    Registration(RegistrationItem),
    /// An outgoing message popped from the outgoing queue.
    Outgoing(OutgoingItem),
    /// A message delivered by the transport for a topic.
    Inbound { topic: String, payload: Vec<u8> },
    /// Local discovery reported a new peer, named by a plain token.
    PeerDiscovered { peer: u64 },
    /// A peer's discovery record expired; `still_known` says whether the
    /// discovery layer still knows the peer through another channel.
    PeerExpired { peer: u64, still_known: bool },
    /// The shutdown signal fired.
    ShutdownRequested,
    /// Anything else the transport reports.
    Other,
}

/// What the event loop must do next with the transport session.
pub enum NodeAction {
    /// Subscribe the session to the topic (a registration was applied).
    Subscribe { topic: String },
    /// Publish the bytes on the topic; a transport failure here is
    /// reported and otherwise ignored, never fatal.
    Publish { topic: String, payload: Vec<u8> },
    /// Hand the bytes to the registered subscriber, transferring
    /// ownership of the buffer to it.
    Deliver { binding: SubscriberBinding, payload: Vec<u8> },
    /// No subscriber is registered for the topic: drop the message.
    /// Registration is asynchronous, so this race is expected.
    DropMessage,
    /// Add the peer to the gossip layer's allow-list.
    AddPeer { peer: u64 },
    /// Remove the peer from the allow-list.
    RemovePeer { peer: u64 },
    /// Drain the outgoing queue for at most [`DRAIN_TIMEOUT_MS`], then
    /// exit the loop whether or not it emptied.
    DrainAndExit,
    /// Nothing to do.
    Ignore,
}

/// The event loop's decision function: updates the registry and says what
/// to do with the transport session, exactly as one loop iteration must.
///
/// Only a registration changes the registry ("last wins"); every other
/// event leaves it untouched. An inbound message goes to the registered
/// binding, or is dropped when none is registered yet. An expired peer is
/// removed from the allow-list only if discovery no longer knows it.
pub fn handle_event(registry: &mut TopicRegistry, event: NodeEvent) -> (action: NodeAction)
    requires
        old(registry).wf(),
    ensures
        final(registry).wf(),
        match event {
            NodeEvent::Registration(r) => final(registry).as_map() == old(registry).as_map().insert(
                r.topic@,
                r.binding,
            ) && (action matches NodeAction::Subscribe { topic } && topic@ == r.topic@),
            NodeEvent::Outgoing(o) => final(registry).as_map() == old(registry).as_map() && (
            action matches NodeAction::Publish { topic, payload } && topic@ == o.topic@ && payload@
                == o.payload@),
            NodeEvent::Inbound { topic, payload } => final(registry).as_map() == old(
                registry,
            ).as_map() && if old(registry).as_map().contains_key(topic@) {
                action matches NodeAction::Deliver { binding, payload: p } && binding == old(
                    registry,
                ).as_map()[topic@] && p@ == payload@
            } else {
                action is DropMessage
            },
            NodeEvent::PeerDiscovered { peer } => final(registry).as_map() == old(
                registry,
            ).as_map() && (action matches NodeAction::AddPeer { peer: q } && q == peer),
            NodeEvent::PeerExpired { peer, still_known } => final(registry).as_map() == old(
                registry,
            ).as_map() && if still_known {
                action is Ignore
            } else {
                action matches NodeAction::RemovePeer { peer: q } && q == peer
            },
            NodeEvent::ShutdownRequested => final(registry).as_map() == old(registry).as_map()
                && action is DrainAndExit,
            NodeEvent::Other => final(registry).as_map() == old(registry).as_map()
                && action is Ignore,
        },
{
    match event {
        NodeEvent::Registration(r) => {
            let topic_for_session = r.topic.clone();
            registry.insert(r.topic, r.binding);
            NodeAction::Subscribe { topic: topic_for_session }
        },
        NodeEvent::Outgoing(o) => NodeAction::Publish { topic: o.topic, payload: o.payload },
        NodeEvent::Inbound { topic, payload } => match registry.lookup(&topic) {
            Some(binding) => NodeAction::Deliver { binding, payload },
            None => NodeAction::DropMessage,
        },
        NodeEvent::PeerDiscovered { peer } => NodeAction::AddPeer { peer },
        NodeEvent::PeerExpired { peer, still_known } => {
            if still_known {
                NodeAction::Ignore
            } else {
                NodeAction::RemovePeer { peer }
            }
        },
        NodeEvent::ShutdownRequested => NodeAction::DrainAndExit,
        NodeEvent::Other => NodeAction::Ignore,
    }
}

} // verus!
