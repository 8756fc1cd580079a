use crate::envelope::{GatewayPayload, GatewayPayloadV};
use vstd::prelude::*;

verus! {

pub open spec fn view_envelopes(s: Seq<GatewayPayload>) -> Seq<GatewayPayloadV> {
    Seq::new(s.len(), |i: int| s[i]@)
}

/// The unbounded, ordered queue of envelopes waiting to be written to the
/// stream. A push always succeeds, so producers never block: heartbeat
/// and identify timing are not perturbed by a slow writer. Envelopes
/// leave in the order they entered.
pub struct OutboundQueue {
    items: Vec<GatewayPayload>,
}

impl View for OutboundQueue {
    type V = Seq<GatewayPayloadV>;

    closed spec fn view(&self) -> Seq<GatewayPayloadV> {
        view_envelopes(self.items@)
    }
}

impl OutboundQueue {
    pub fn new() -> (q: OutboundQueue)
        ensures
            q@ == Seq::<GatewayPayloadV>::empty(),
    {
        let q = OutboundQueue { items: Vec::new() };
        proof {
            assert(q@ =~= Seq::<GatewayPayloadV>::empty());
        }
        q
    }

    pub fn len(&self) -> (n: usize)
        ensures
            n == self@.len(),
    {
        self.items.len()
    }

    /// Enqueue an envelope at the back; never fails.
    pub fn push(&mut self, e: GatewayPayload)
        ensures
            final(self)@ == old(self)@.push(e@),
    {
        let ghost v0 = self.items@;
        self.items.push(e);
        proof {
            assert(view_envelopes(self.items@) =~= view_envelopes(v0).push(e@));
        }
    }

    /// Take the oldest envelope, where there is one.
    pub fn pop_front(&mut self) -> (r: Option<GatewayPayload>)
        ensures
            match r {
                Some(e) => old(self)@.len() > 0 && e@ == old(self)@[0] && final(self)@ == old(
                    self,
                )@.drop_first(),
                None => old(self)@.len() == 0 && final(self)@ == old(self)@,
            },
    {
        if self.items.len() == 0 {
            return None;
        }
        let ghost v0 = self.items@;
        let e = self.items.remove(0);
        proof {
            assert(self.items@ =~= v0.drop_first());
            assert(view_envelopes(self.items@) =~= view_envelopes(v0).drop_first());
        }
        Some(e)
    }
}

/// The bounded queue of decoded envelopes waiting for application
/// handling. A full queue is a backpressure signal: the push attempt is
/// reported back to the producer, not blocked on and not silently
/// dropped.
pub struct InboundQueue {
    items: Vec<GatewayPayload>,
    capacity: usize,
}

impl View for InboundQueue {
    type V = Seq<GatewayPayloadV>;

    closed spec fn view(&self) -> Seq<GatewayPayloadV> {
        view_envelopes(self.items@)
    }
}

impl InboundQueue {
    /// Room for `capacity` envelopes, never fewer than one.
    pub closed spec fn spec_capacity(&self) -> nat {
        self.capacity as nat
    }

    /// The queue never holds more than its capacity.
    pub closed spec fn wf(&self) -> bool {
        self.capacity >= 1 && self.items@.len() <= self.capacity
    }

    pub fn new(capacity: usize) -> (q: InboundQueue)
        requires
            capacity >= 1,
        ensures
            q@ == Seq::<GatewayPayloadV>::empty(),
            q.wf(),
            q.spec_capacity() == capacity,
    {
        let q = InboundQueue { items: Vec::new(), capacity };
        proof {
            assert(q@ =~= Seq::<GatewayPayloadV>::empty());
        }
        q
    }

    pub fn len(&self) -> (n: usize)
        ensures
            n == self@.len(),
    {
        self.items.len()
    }

    pub fn capacity(&self) -> (n: usize)
        ensures
            n == self.spec_capacity(),
    {
        self.capacity
    }

    /// Enqueue at the back, or hand the envelope straight back when the
    /// queue is full: backpressure is visible to the producer, and the
    /// queue itself is left exactly as it was.
    pub fn try_enqueue(&mut self, e: GatewayPayload) -> (r: Result<(), GatewayPayload>)
        requires
            old(self).wf(),
        ensures
            final(self).wf(),
            final(self).spec_capacity() == old(self).spec_capacity(),
            match r {
                Ok(()) => old(self)@.len() < old(self).spec_capacity() && final(self)@ == old(
                    self,
                )@.push(e@),
                Err(back) => old(self)@.len() == old(self).spec_capacity() && final(self)@ == old(
                    self,
                )@ && back == e,
            },
    {
        if self.items.len() < self.capacity {
            let ghost v0 = self.items@;
            self.items.push(e);
            proof {
                assert(view_envelopes(self.items@) =~= view_envelopes(v0).push(e@));
            }
            Ok(())
        } else {
            Err(e)
        }
    }

    /// Take the oldest envelope, where there is one.
    pub fn dequeue(&mut self) -> (r: Option<GatewayPayload>)
        requires
            old(self).wf(),
        ensures
            final(self).wf(),
            final(self).spec_capacity() == old(self).spec_capacity(),
            match r {
                Some(e) => old(self)@.len() > 0 && e@ == old(self)@[0] && final(self)@ == old(
                    self,
                )@.drop_first(),
                None => old(self)@.len() == 0 && final(self)@ == old(self)@,
            },
    {
        if self.items.len() == 0 {
            return None;
        }
        let ghost v0 = self.items@;
        let e = self.items.remove(0);
        proof {
            assert(self.items@ =~= v0.drop_first());
            assert(view_envelopes(self.items@) =~= view_envelopes(v0).drop_first());
        }
        Some(e)
    }
}

} // verus!
