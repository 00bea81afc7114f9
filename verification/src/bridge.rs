//! The event-to-stream bridge: one bus subject fans out to many
//! independently paced clients through a bounded broadcast buffer.
//!
//! The buffer is a sliding window over everything ever offered: it retains
//! at most `cap` messages, numbered by a monotone sequence counter, and each
//! subscriber keeps its own read cursor. A subscriber whose cursor has
//! fallen out of the window is told how many messages it missed and resumes
//! from the oldest retained one (drop-and-continue); it never blocks the
//! producer or another subscriber.
//!
//! The bus side of the bridge decodes each inbound event and re-encodes it
//! for presentation; a payload that does not decode is skipped, never fatal.

use vstd::prelude::*;

use crate::envelopes::GeneratedTextMessage;
use crate::wire::{
    decode_generated_text_message, encode_generated_text_message, spec_dec_generated_text_message,
    spec_enc_generated_text_message,
};

verus! {

/// The bounded multi-consumer broadcast buffer.
#[derive(Debug)]
pub struct BroadcastBuffer {
    /// Bound on retained messages; at least one.
    pub cap: usize,
    /// Sequence number of the oldest retained message.
    pub base_seq: u64,
    /// The retained window, oldest first; never longer than `cap`.
    pub items: Vec<String>,
}

/// One client's read position.
#[derive(Debug, Clone, PartialEq, Eq)]
pub struct BridgeSubscriber {
    pub next_seq: u64,
}

/// What one poll hands a subscriber.
#[derive(Debug, Clone, PartialEq, Eq)]
pub enum BridgeRecv {
    /// The next message, in offer order.
    Message(String),
    /// The subscriber fell behind and missed this many messages; it resumes
    /// from the oldest retained one.
    Lagged(u64),
    /// Nothing new since the last poll.
    Empty,
}

impl BroadcastBuffer {
    /// The retained window, as message character sequences, oldest first.
    pub open spec fn retained(&self) -> Seq<Seq<char>> {
        self.items.deep_view()
    }

    /// Sequence number of the oldest retained message.
    pub open spec fn base(&self) -> u64 {
        self.base_seq
    }

    /// Sequence number the next offered message will get.
    pub open spec fn next(&self) -> int {
        self.base_seq + self.items@.len()
    }

    pub open spec fn capacity(&self) -> usize {
        self.cap
    }

    /// The buffer retains at most `cap` messages and its sequence counter
    /// has room to grow.
    pub open spec fn well_formed(&self) -> bool {
        self.cap >= 1 && self.items@.len() <= self.cap && self.next() <= u64::MAX
    }

    pub fn new(cap: usize) -> (r: BroadcastBuffer)
        requires
            cap >= 1,
        ensures
            r.well_formed(),
            r.capacity() == cap,
            r.base() == 0,
            r.retained() =~= Seq::<Seq<char>>::empty(),
    {
        let r = BroadcastBuffer { cap, base_seq: 0, items: Vec::new() };
        proof {
            assert(r.retained() =~= Seq::<Seq<char>>::empty());
        }
        r
    }

    /// Offer one message: append it to the window; if the window is full,
    /// the oldest retained message is dropped first. The producer is never
    /// blocked and no subscriber state is touched.
    pub fn offer(&mut self, msg: String)
        requires
            old(self).well_formed(),
            old(self).next() < u64::MAX,
        ensures
            final(self).well_formed(),
            final(self).capacity() == old(self).capacity(),
            final(self).next() == old(self).next() + 1,
            old(self).retained().len() < old(self).capacity() ==> {
                &&& final(self).retained() == old(self).retained().push(msg@)
                &&& final(self).base() == old(self).base()
            },
            old(self).retained().len() == old(self).capacity() ==> {
                &&& final(self).retained() == old(self).retained().skip(1).push(msg@)
                &&& final(self).base() == old(self).base() + 1
            },
    {
        if self.items.len() == self.cap {
            self.items.remove(0);
            self.base_seq = self.base_seq + 1;
            self.items.push(msg);
            proof {
                assert(self.retained() =~= old(self).retained().skip(1).push(msg@));
            }
        } else {
            self.items.push(msg);
            proof {
                assert(self.retained() =~= old(self).retained().push(msg@));
            }
        }
    }

    /// A new subscriber starts at the next sequence number: it receives
    /// every message offered after it subscribed, and nothing before.
    pub fn subscribe(&self) -> (r: BridgeSubscriber)
        requires
            self.well_formed(),
        ensures
            r.next_seq == self.next(),
    {
        let n = self.base_seq + (self.items.len() as u64);
        BridgeSubscriber { next_seq: n }
    }

    /// Poll for one subscriber. The buffer itself is untouched, so polling
    /// one subscriber can never affect another or the producer.
    pub fn poll(&self, sub: &mut BridgeSubscriber) -> (r: BridgeRecv)
        requires
            self.well_formed(),
            old(sub).next_seq <= self.next(),
        ensures
            final(sub).next_seq <= self.next(),
            old(sub).next_seq < self.base() ==> {
                &&& r == BridgeRecv::Lagged((self.base() - old(sub).next_seq) as u64)
                &&& final(sub).next_seq == self.base()
            },
            self.base() <= old(sub).next_seq < self.next() ==> {
                &&& (r matches BridgeRecv::Message(m) && m@ == self.retained()[
                    old(sub).next_seq - self.base()
                ])
                &&& final(sub).next_seq == old(sub).next_seq + 1
            },
            old(sub).next_seq >= self.next() ==> {
                &&& r == BridgeRecv::Empty
                &&& final(sub).next_seq == old(sub).next_seq
            },
    {
        if sub.next_seq < self.base_seq {
            let missed = self.base_seq - sub.next_seq;
            sub.next_seq = self.base_seq;
            BridgeRecv::Lagged(missed)
        } else {
            let offset = sub.next_seq - self.base_seq;
            if (offset as usize) < self.items.len() {
                let m = self.items[offset as usize].clone();
                sub.next_seq = sub.next_seq + 1;
                proof {
                    assert(m@ == self.retained()[offset as int]);
                }
                BridgeRecv::Message(m)
            } else {
                BridgeRecv::Empty
            }
        }
    }
}

/// Decode one inbound bus event and re-encode it for presentation. A
/// payload that is not a well-formed event yields `None` and is skipped.
pub fn bridge_reencode(payload: &Vec<char>) -> (r: Option<Vec<char>>)
    ensures
        (match spec_dec_generated_text_message(payload@) {
            Some(v) => r matches Some(out) && out@ == spec_enc_generated_text_message(v),
            None => r is None,
        }),
{
    match decode_generated_text_message(payload) {
        None => None,
        Some(msg) => Some(encode_generated_text_message(&msg)),
    }
}

/// Law: a subscriber that fell behind is first told exactly how many
/// messages it missed, and the very next poll hands it the oldest retained
/// message — it resumes receiving fresh events.
pub proof fn lemma_lagged_subscriber_resumes(buf: BroadcastBuffer, sub: BridgeSubscriber)
    requires
        buf.well_formed(),
        sub.next_seq < buf.base(),
        buf.retained().len() > 0,
    ensures
        ({
            // what poll promises on a lagging cursor
            let missed = (buf.base() - sub.next_seq) as u64;
            let resumed = BridgeSubscriber { next_seq: buf.base() };
            // after the lag signal the cursor sits on the oldest retained
            // message, which the next poll returns
            missed > 0 && resumed.next_seq < buf.next() && buf.retained()[
                resumed.next_seq - buf.base()
            ] == buf.retained()[0]
        }),
{
}

/// Law: offering a message never loses an event a caught-up subscriber had
/// coming. Polling touches only the polled subscriber's cursor (the buffer
/// is taken by shared reference), and after an offer every message from a
/// still-retained cursor up to the old head reads exactly as it did before.
pub proof fn lemma_fast_subscriber_unaffected(
    buf_before: BroadcastBuffer,
    buf_after: BroadcastBuffer,
    fast: BridgeSubscriber,
    msg: Seq<char>,
)
    requires
        buf_before.well_formed(),
        buf_before.next() < u64::MAX,
        // `buf_after` is `buf_before` after one offer
        (buf_before.retained().len() < buf_before.capacity() ==> buf_after.retained()
            == buf_before.retained().push(msg) && buf_after.base() == buf_before.base()),
        (buf_before.retained().len() == buf_before.capacity() ==> buf_after.retained()
            == buf_before.retained().skip(1).push(msg) && buf_after.base() == buf_before.base()
            + 1),
        // the subscriber's cursor is still inside the new window: it did not lag
        fast.next_seq >= buf_after.base(),
        fast.next_seq <= buf_before.next(),
    ensures
        forall|q: int|
            fast.next_seq <= q < buf_before.next() ==> #[trigger] buf_after.retained()[
                q - buf_after.base()
            ] == buf_before.retained()[q - buf_before.base()],
{
    if buf_before.retained().len() < buf_before.capacity() {
        assert forall|q: int| fast.next_seq <= q < buf_before.next() implies #[trigger] buf_after.retained()[
            q - buf_after.base()
        ] == buf_before.retained()[q - buf_before.base()] by {
            assert(buf_after.retained()[q - buf_after.base()] == buf_before.retained().push(msg)[
                q - buf_before.base()
            ]);
        }
    } else {
        assert forall|q: int| fast.next_seq <= q < buf_before.next() implies #[trigger] buf_after.retained()[
            q - buf_after.base()
        ] == buf_before.retained()[q - buf_before.base()] by {
            let i = q - buf_after.base();
            assert(buf_after.retained()[i] == buf_before.retained().skip(1).push(msg)[i]);
            assert(buf_before.retained().skip(1)[i] == buf_before.retained()[i + 1]);
        }
    }
}

} // verus!
