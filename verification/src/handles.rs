//! Publisher and subscription handles: lightweight per-topic identity
//! objects. Both carry a 16-byte identity generated once at construction;
//! a publisher also carries a sequence counter that starts at 0 and grows
//! by 1 on every publish. All actual I/O is delegated to the node's
//! queues.

use vstd::prelude::*;

use crate::envelope::{encode_frame, IDENTITY_LEN};
use crate::node::{Node, RegistrationItem};
use crate::registry::SubscriberBinding;

verus! {

/// The sequence-counter update one publish performs.
pub open spec fn next_sequence(s: nat) -> nat {
    s + 1
}

/// The sequence number reached after `k` publishes, starting from a fresh
/// publisher's 0 and applying the publish update each time.
pub open spec fn sequence_after(k: nat) -> nat
    decreases k,
{
    if k == 0 {
        0
    } else {
        next_sequence(sequence_after((k - 1) as nat))
    }
}

/// Sequence monotonicity: a fresh publisher's sequence number is 0
/// (`Publisher::new`), each publish turns sequence `s` into
/// `next_sequence(s)` (`Publisher::publish`), and after `k` publishes the
/// sequence number is exactly `k`.
pub proof fn lemma_sequence_monotonic(k: nat)
    ensures
        sequence_after(k) == k,
    decreases k,
{
    if k > 0 {
        lemma_sequence_monotonic((k - 1) as nat);
    }
}

/// Relies on uuid::Uuid::new_v4 (and into_bytes): a fresh version-4 UUID
/// drawn from the process's random source, as its 16 bytes. The value is
/// random, so nothing but its length is promised.
#[verifier::external_body]
fn fresh_identity() -> (r: Vec<u8>)
    ensures
        r@.len() == IDENTITY_LEN,
{
    uuid::Uuid::new_v4().into_bytes().to_vec()
}

/// A publisher for one topic: identity, topic, and sequence counter.
pub struct Publisher {
    identity: Vec<u8>,
    topic: String,
    sequence: u64,
}

impl Publisher {
    /// The handle's 16-byte identity.
    pub closed spec fn identity_view(&self) -> Seq<u8> {
        self.identity@
    }

    /// The topic this publisher sends to.
    pub closed spec fn topic_view(&self) -> Seq<char> {
        self.topic@
    }

    /// The current sequence number.
    pub closed spec fn sequence_view(&self) -> u64 {
        self.sequence
    }

    /// The identity has its fixed length.
    pub open spec fn wf(&self) -> bool {
        self.identity_view().len() == IDENTITY_LEN
    }

    /// Creates a publisher for `topic` with a fresh identity and sequence
    /// number 0.
    pub fn new(topic: String) -> (p: Publisher)
        ensures
            p.wf(),
            p.topic_view() == topic@,
            p.sequence_view() == 0,
    {
        Publisher { identity: fresh_identity(), topic, sequence: 0 }
    }

    /// The identity, stable across reads: every call returns the value
    /// generated at construction.
    pub fn get_identity(&self) -> (r: &Vec<u8>)
        ensures
            r@ == self.identity_view(),
    {
        &self.identity
    }

    /// The sequence number: 0 on a fresh publisher, and the number of
    /// publish calls made so far.
    pub fn get_sequence_number(&self) -> (r: u64)
        ensures
            r == self.sequence_view(),
    {
        self.sequence
    }

    /// The topic this publisher sends to.
    pub fn get_topic(&self) -> (r: &String)
        ensures
            r@ == self.topic_view(),
    {
        &self.topic
    }

    /// Frames `payload` with this publisher's identity and current
    /// sequence number, enqueues the frame on the node's outgoing queue
    /// (which stamps it with the capture time), and increments the
    /// sequence number. Never blocks and never fails; the enqueued frame
    /// is exactly `frame_bytes(identity, sequence, payload)`.
    pub fn publish(&mut self, node: &Node, payload: &Vec<u8>)
        requires
            old(self).wf(),
            old(self).sequence_view() < u64::MAX,
        ensures
            final(self).wf(),
            final(self).identity_view() == old(self).identity_view(),
            final(self).topic_view() == old(self).topic_view(),
            final(self).sequence_view() == next_sequence(old(self).sequence_view() as nat),
    {
        let frame = encode_frame(&self.identity, self.sequence, payload);
        node.publish_message(self.topic.clone(), frame);
        self.sequence = self.sequence + 1;
    }
}

/// A subscription handle for one topic: identity and topic. Construction
/// enqueues the registration; no confirmation is returned, and the binding
/// becomes observable only once the event loop applies it.
pub struct Subscription {
    identity: Vec<u8>,
    topic: String,
}

impl Subscription {
    /// The handle's 16-byte identity.
    pub closed spec fn identity_view(&self) -> Seq<u8> {
        self.identity@
    }

    /// The topic this subscription receives from.
    pub closed spec fn topic_view(&self) -> Seq<char> {
        self.topic@
    }

    /// The identity has its fixed length.
    pub open spec fn wf(&self) -> bool {
        self.identity_view().len() == IDENTITY_LEN
    }

    /// Creates a subscription for `topic` with a fresh identity, and
    /// enqueues `(topic, binding)` on the node's registration queue.
    pub fn new(node: &Node, topic: String, binding: SubscriberBinding) -> (s: Subscription)
        ensures
            s.wf(),
            s.topic_view() == topic@,
    {
        node.notify_new_subscriber(RegistrationItem { topic: topic.clone(), binding });
        Subscription { identity: fresh_identity(), topic }
    }

    /// The identity, stable across reads.
    pub fn get_identity(&self) -> (r: &Vec<u8>)
        ensures
            r@ == self.identity_view(),
    {
        &self.identity
    }

    /// The topic this subscription receives from.
    pub fn get_topic(&self) -> (r: &String)
        ensures
            r@ == self.topic_view(),
    {
        &self.topic
    }
}

} // verus!
