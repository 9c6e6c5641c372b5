//! Application-level backpressure for outgoing frame chunks.

use vstd::prelude::*;

verus! {

/// What a flow controller knows: its limit, and the bytes that were let
/// through and not yet reported as sent.
#[verifier::ext_equal]
pub struct Flow {
    pub watermark: nat,
    pub pending: nat,
}

impl Flow {
    /// Whether a request is let through: an anchor always, anything else only
    /// if it does not take the pending bytes over the limit.
    pub open spec fn lets_through(self, bytes: nat, is_anchor: bool) -> bool {
        is_anchor || self.pending + bytes <= self.watermark
    }

    /// State after a request: what is let through is pending.
    pub open spec fn requested(self, bytes: nat, is_anchor: bool) -> Flow {
        Flow {
            watermark: self.watermark,
            pending: if self.lets_through(bytes, is_anchor) {
                self.pending + bytes
            } else {
                self.pending
            },
        }
    }

    /// State after bytes were sent; more than are pending empties it.
    pub open spec fn sent(self, bytes: nat) -> Flow {
        Flow {
            watermark: self.watermark,
            pending: if bytes <= self.pending {
                (self.pending - bytes) as nat
            } else {
                0
            },
        }
    }

    /// Whether the pending bytes meet or exceed the limit.
    pub open spec fn congested(self) -> bool {
        self.pending >= self.watermark
    }
}

/// Tracks pending bytes. When adding a chunk would exceed the high-watermark
/// it is dropped; anchor frames are never dropped.
pub struct FlowController {
    high_watermark: usize,
    pending: usize,
}

impl View for FlowController {
    type V = Flow;

    closed spec fn view(&self) -> Flow {
        Flow { watermark: self.high_watermark as nat, pending: self.pending as nat }
    }
}

impl FlowController {
    /// Create a new flow controller with the given high-watermark in bytes.
    #[must_use]
    pub fn new(high_watermark: usize) -> (r: FlowController)
        ensures
            r@ == (Flow { watermark: high_watermark as nat, pending: 0 }),
    {
        FlowController { high_watermark, pending: 0 }
    }

    /// Record that `bytes` are about to be enqueued for sending.
    /// Returns `true` if they should be sent, `false` if they should be dropped.
    /// Anchor frames (`is_anchor = true`) are never dropped.
    pub fn should_send(&mut self, bytes: usize, is_anchor: bool) -> (r: bool)
        requires
            is_anchor ==> old(self)@.pending + bytes <= usize::MAX,
        ensures
            r == old(self)@.lets_through(bytes as nat, is_anchor),
            final(self)@ == old(self)@.requested(bytes as nat, is_anchor),
    {
        if is_anchor {
            self.pending = self.pending + bytes;
            return true;
        }
        // Reject if adding `bytes` would exceed the high-watermark.
        if bytes > self.high_watermark || self.pending > self.high_watermark - bytes {
            return false;
        }
        self.pending = self.pending + bytes;
        true
    }

    /// Acknowledge that `bytes` have been sent and removed from the queue.
    ///
    /// Uses saturating arithmetic — it is safe to call with more bytes than
    /// are currently pending.
    pub fn on_sent(&mut self, bytes: usize)
        ensures
            final(self)@ == old(self)@.sent(bytes as nat),
    {
        self.pending = self.pending.saturating_sub(bytes);
    }

    /// Current number of pending bytes.
    #[must_use]
    pub fn pending_bytes(&self) -> (r: usize)
        ensures
            r == self@.pending,
    {
        self.pending
    }

    /// Whether the pending bytes meet or exceed the high-watermark.
    #[must_use]
    pub fn is_congested(&self) -> (r: bool)
        ensures
            r == self@.congested(),
    {
        self.pending >= self.high_watermark
    }
}

/// One thing that can happen to a flow controller.
pub enum FlowEvent {
    /// A request to send a number of bytes.
    Request { bytes: nat, is_anchor: bool },
    /// A number of bytes was sent.
    Sent { bytes: nat },
}

/// State after a sequence of events.
pub open spec fn flow_after(start: Flow, events: Seq<FlowEvent>) -> Flow
    decreases events.len(),
{
    if events.len() == 0 {
        start
    } else {
        let before = flow_after(start, events.drop_last());
        match events.last() {
            FlowEvent::Request { bytes, is_anchor } => before.requested(bytes, is_anchor),
            FlowEvent::Sent { bytes } => before.sent(bytes),
        }
    }
}

/// An anchor is never dropped, however congested the controller is.
pub proof fn law_anchors_are_never_dropped(f: Flow, bytes: nat)
    ensures
        f.lets_through(bytes, true),
        f.requested(bytes, true).pending == f.pending + bytes,
{
}

/// Without anchors, no sequence of requests and acknowledgements takes the
/// pending bytes over the high-watermark.
pub proof fn law_watermark_holds_without_anchors(start: Flow, events: Seq<FlowEvent>)
    requires
        start.pending <= start.watermark,
        forall|i: int|
            0 <= i < events.len() ==> !(#[trigger] events[i] matches FlowEvent::Request {
                is_anchor: true,
                ..
            }),
    ensures
        flow_after(start, events).pending <= start.watermark,
        flow_after(start, events).watermark == start.watermark,
    decreases events.len(),
{
    if events.len() > 0 {
        let before = events.drop_last();
        assert forall|i: int| 0 <= i < before.len() implies !(
        #[trigger] before[i] matches FlowEvent::Request { is_anchor: true, .. }) by {
            assert(before[i] == events[i]);
        }
        law_watermark_holds_without_anchors(start, before);
        assert(events.last() == events[events.len() - 1]);
    }
}

/// Sending what was let through and acknowledging it leaves the controller as
/// it was; a request that is dropped changes nothing at all.
pub proof fn law_request_and_acknowledge_cancel(f: Flow, bytes: nat, is_anchor: bool)
    ensures
        f.lets_through(bytes, is_anchor) ==> f.requested(bytes, is_anchor).sent(bytes) == f,
        !f.lets_through(bytes, is_anchor) ==> f.requested(bytes, is_anchor) == f,
{
}

/// A request is dropped only where it would take the pending bytes over the
/// high-watermark. A controller is congested exactly where not even one more byte is let
/// through.
pub proof fn law_only_what_does_not_fit_is_dropped(f: Flow, bytes: nat)
    ensures
        f.lets_through(bytes, false) <==> f.pending + bytes <= f.watermark,
        f.requested(bytes, false).pending == if f.pending + bytes <= f.watermark {
            f.pending + bytes
        } else {
            f.pending
        },
        f.congested() <==> !f.lets_through(1, false),
{
}

/// Bytes that were sent leave the pending ones, as far as there are any; in how many
/// parts they are reported makes no difference, and the limit stays.
pub proof fn law_sent_bytes_are_no_longer_pending(f: Flow, a: nat, b: nat)
    ensures
        a <= f.pending ==> f.sent(a).pending == f.pending - a,
        a >= f.pending ==> f.sent(a).pending == 0,
        f.sent(a).sent(b) == f.sent(a + b),
        f.sent(a).watermark == f.watermark,
        f.requested(a, true).watermark == f.watermark,
        f.requested(a, false).watermark == f.watermark,
{
}

} // verus!
