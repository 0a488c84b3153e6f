//! The channel: a single-consumer, multi-producer ordered message queue.
//!
//! The broker models the one piece of shared mutable state in the design:
//! the internally synchronized queue connecting every cloned sender handle
//! to the single receiver.  Messages leave in the order their sends
//! enqueued them — arrival order, which across parallel producers is not
//! deterministic and must not be relied on; only the multiset of messages
//! is.  A send never blocks and fails only when the receiver is gone.
//! Receiving is modelled as taking the front of the queue when a message
//! has arrived; a host that drives real producers blocks instead until one
//! does, and terminates its drain after a known, fixed count rather than
//! by detecting closure.

use vstd::prelude::*;

use crate::errors::ChannelBroken;

verus! {

/// The state shared by every sender clone and the one receiver: the queue
/// of undelivered messages in arrival order, the number of live sender
/// handles, and whether the receiver still exists.
pub struct ChannelBroker {
    queue: Vec<u64>,
    senders: usize,
    receiver_alive: bool,
}

impl ChannelBroker {
    /// The undelivered messages, in arrival order.
    pub closed spec fn spec_queue(&self) -> Seq<u64> {
        self.queue@
    }

    /// How many sender handles are live.
    pub closed spec fn spec_senders(&self) -> int {
        self.senders as int
    }

    /// Whether the receiver still exists.
    pub closed spec fn spec_receiver_alive(&self) -> bool {
        self.receiver_alive
    }

    /// Construction: one sender prototype and one receiver, bound
    /// together over an empty queue.
    pub fn new() -> (b: ChannelBroker)
        ensures
            b.spec_queue() == Seq::<u64>::empty(),
            b.spec_senders() == 1,
            b.spec_receiver_alive(),
    {
        ChannelBroker { queue: Vec::new(), senders: 1, receiver_alive: true }
    }

    /// Clone a sender handle: cheap, and the clone shares the same queue.
    pub fn clone_sender(&mut self)
        requires
            old(self).spec_senders() >= 1,
            old(self).spec_senders() < usize::MAX,
        ensures
            final(self).spec_senders() == old(self).spec_senders() + 1,
            final(self).spec_queue() == old(self).spec_queue(),
            final(self).spec_receiver_alive() == old(self).spec_receiver_alive(),
    {
        self.senders = self.senders + 1;
    }

    /// Drop one sender handle.  Undelivered messages stay in the queue.
    pub fn drop_sender(&mut self)
        requires
            old(self).spec_senders() >= 1,
        ensures
            final(self).spec_senders() == old(self).spec_senders() - 1,
            final(self).spec_queue() == old(self).spec_queue(),
            final(self).spec_receiver_alive() == old(self).spec_receiver_alive(),
    {
        self.senders = self.senders - 1;
    }

    /// Destroy the receiver.  Every later send fails with ChannelBroken.
    pub fn drop_receiver(&mut self)
        ensures
            !final(self).spec_receiver_alive(),
            final(self).spec_senders() == old(self).spec_senders(),
            final(self).spec_queue() == old(self).spec_queue(),
    {
        self.receiver_alive = false;
    }

    /// Send from any live sender handle: enqueue and return at once,
    /// whether or not anything has been received yet.  Fails exactly when
    /// the receiver has been destroyed, as a returned error, never a hang
    /// or a crash.
    pub fn send(&mut self, value: u64) -> (r: Result<(), ChannelBroken>)
        requires
            old(self).spec_senders() >= 1,
        ensures
            r is Ok <==> old(self).spec_receiver_alive(),
            old(self).spec_receiver_alive() ==> final(self).spec_queue() == old(self).spec_queue().push(value),
            !old(self).spec_receiver_alive() ==> r == Err::<(), ChannelBroken>(ChannelBroken)
                && final(self).spec_queue() == old(self).spec_queue(),
            final(self).spec_senders() == old(self).spec_senders(),
            final(self).spec_receiver_alive() == old(self).spec_receiver_alive(),
    {
        if self.receiver_alive {
            self.queue.push(value);
            Ok(())
        } else {
            Err(ChannelBroken)
        }
    }

    /// Send one message from each of a line of producers, in the arrival
    /// order given.  All succeed exactly when the receiver is alive.
    pub fn send_all(&mut self, values: &Vec<u64>) -> (r: Result<(), ChannelBroken>)
        requires
            old(self).spec_senders() >= 1,
        ensures
            r is Ok <==> old(self).spec_receiver_alive(),
            old(self).spec_receiver_alive() ==> final(self).spec_queue() == old(self).spec_queue() + values@,
            !old(self).spec_receiver_alive() ==> final(self).spec_queue() == old(self).spec_queue(),
            final(self).spec_senders() == old(self).spec_senders(),
            final(self).spec_receiver_alive() == old(self).spec_receiver_alive(),
    {
        if !self.receiver_alive {
            return Err(ChannelBroken);
        }
        let n = values.len();
        let mut i: usize = 0;
        proof {
            assert(self.spec_queue() + values@.subrange(0, 0) =~= self.spec_queue());
        }
        while i < n
            invariant
                n == values@.len(),
                i <= n,
                self.spec_senders() == old(self).spec_senders(),
                self.spec_senders() >= 1,
                self.spec_receiver_alive(),
                self.spec_queue() == old(self).spec_queue() + values@.subrange(0, i as int),
            decreases n - i,
        {
            let r = self.send(values[i]);
            proof {
                assert(values@.subrange(0, i as int + 1) =~= values@.subrange(0, i as int).push(
                    values@[i as int],
                ));
                assert(old(self).spec_queue() + values@.subrange(0, i as int + 1) =~= (old(self).spec_queue() + values@.subrange(0, i as int)).push(values@[i as int]));
            }
            i = i + 1;
        }
        proof {
            assert(values@.subrange(0, n as int) =~= values@);
        }
        Ok(())
    }

    /// How many messages have arrived and not yet been received.
    pub fn pending(&self) -> (n: usize)
        ensures
            n == self.spec_queue().len(),
    {
        self.queue.len()
    }

    /// How many sender handles are currently live.
    pub fn live_senders(&self) -> (n: usize)
        ensures
            n == self.spec_senders(),
    {
        self.senders
    }

    /// Whether the receiver still exists.
    pub fn receiver_is_alive(&self) -> (r: bool)
        ensures
            r == self.spec_receiver_alive(),
    {
        self.receiver_alive
    }

    /// Receive the message that arrived first, if one has arrived.  The
    /// single consumer calls this a known, fixed number of times — once
    /// per producer — instead of looping until closure.  None means no
    /// message has arrived yet: where real producers still run, the
    /// consumer blocks and tries again rather than give up.
    pub fn receive(&mut self) -> (r: Option<u64>)
        requires
            old(self).spec_receiver_alive(),
        ensures
            old(self).spec_queue().len() > 0 ==> r == Some(old(self).spec_queue()[0]) && final(self).spec_queue() == old(self).spec_queue().drop_first(),
            old(self).spec_queue().len() == 0 ==> r is None && final(self).spec_queue() == old(self).spec_queue(),
            final(self).spec_senders() == old(self).spec_senders(),
            final(self).spec_receiver_alive(),
    {
        if self.queue.len() > 0 {
            let v = self.queue.remove(0);
            proof {
                assert(old(self).spec_queue().remove(0) =~= old(self).spec_queue().drop_first());
            }
            Some(v)
        } else {
            None
        }
    }

    /// Drain exactly n messages, in arrival order.
    pub fn drain(&mut self, n: usize) -> (out: Vec<u64>)
        requires
            old(self).spec_receiver_alive(),
            n <= old(self).spec_queue().len(),
        ensures
            out@ == old(self).spec_queue().subrange(0, n as int),
            out@.to_multiset() == old(self).spec_queue().subrange(0, n as int).to_multiset(),
            final(self).spec_queue() == old(self).spec_queue().subrange(
                n as int,
                old(self).spec_queue().len() as int,
            ),
            final(self).spec_senders() == old(self).spec_senders(),
            final(self).spec_receiver_alive(),
    {
        let mut out: Vec<u64> = Vec::new();
        let mut i: usize = 0;
        while i < n
            invariant
                n <= old(self).spec_queue().len(),
                i <= n,
                out@ == old(self).spec_queue().subrange(0, i as int),
                self.spec_queue() == old(self).spec_queue().subrange(
                    i as int,
                    old(self).spec_queue().len() as int,
                ),
                self.spec_senders() == old(self).spec_senders(),
                self.spec_receiver_alive(),
            decreases n - i,
        {
            let ghost q = self.spec_queue();
            let r = self.receive();
            match r {
                Some(v) => {
                    out.push(v);
                },
                None => {
                    proof {
                        assert(q.len() > 0);
                    }
                    unreached()
                },
            }
            proof {
                assert(old(self).spec_queue().subrange(0, i as int + 1) =~= old(self).spec_queue().subrange(0, i as int).push(q[0]));
                assert(q.drop_first() =~= old(self).spec_queue().subrange(
                    i as int + 1,
                    old(self).spec_queue().len() as int,
                ));
            }
            i = i + 1;
        }
        out
    }
}

/// Fan-in round trip: after N producers have each enqueued exactly one
/// message — in whatever arrival order the scheduler produced — draining
/// the channel exactly N times hands back a multiset equal to the N sent
/// identifiers.  Order across runs is unspecified; the multiset is not.
pub proof fn lemma_drain_returns_sent_multiset(sent: Seq<u64>, arrival: Seq<u64>)
    requires
        arrival.to_multiset() == sent.to_multiset(),
    ensures
        arrival.len() == sent.len(),
        arrival.subrange(0, arrival.len() as int).to_multiset() == sent.to_multiset(),
{
    sent.to_multiset_ensures();
    arrival.to_multiset_ensures();
    assert(arrival.subrange(0, arrival.len() as int) =~= arrival);
}

} // verus!
