//! The per-message dispatch model every consuming worker shares: pull a
//! message, try to decode it, and either hand the envelope to an
//! independently running handler or drop the message and count it.
//!
//! The loop state holds only what dispatching needs: the envelopes handed
//! out and the number of malformed payloads dropped. A handler's progress or
//! failure is, by construction, not part of the state — that is the
//! isolation the loop promises: one message's slow or failing handler
//! cannot affect whether the next message is dispatched.
//!
//! The text-generation worker's envelope stands in for all of them; every
//! worker's loop is this model over its own envelope type.

use vstd::prelude::*;

use crate::envelopes::{GenerateTextTask, GenerateTextTaskView};
use crate::wire::{decode_generate_text_task, spec_dec_generate_text_task};

verus! {

/// What a dispatch loop has done so far.
#[derive(Debug)]
pub struct DispatchLog {
    /// Envelopes handed to a spawned handler, in arrival order.
    pub spawned: Vec<GenerateTextTask>,
    /// Messages dropped because their payload did not decode.
    pub dropped: u64,
}

pub ghost struct DispatchLogView {
    pub spawned: Seq<GenerateTextTaskView>,
    pub dropped: u64,
}

pub open spec fn tasks_view(v: Seq<GenerateTextTask>) -> Seq<GenerateTextTaskView> {
    v.map_values(|t: GenerateTextTask| t@)
}

impl View for DispatchLog {
    type V = DispatchLogView;

    open spec fn view(&self) -> DispatchLogView {
        DispatchLogView { spawned: tasks_view(self.spawned@), dropped: self.dropped }
    }
}

/// One step of the loop: what the state becomes and what is handed out, as
/// a function of the state and the inbound payload alone.
pub open spec fn spec_dispatch_step(st: DispatchLogView, payload: Seq<char>) -> (
    DispatchLogView,
    Option<GenerateTextTaskView>,
) {
    match spec_dec_generate_text_task(payload) {
        Some(t) => (
            DispatchLogView { spawned: st.spawned.push(t), dropped: st.dropped },
            Some(t),
        ),
        None => (
            DispatchLogView { spawned: st.spawned, dropped: (st.dropped + 1) as u64 },
            None,
        ),
    }
}

impl DispatchLog {
    pub fn new() -> (r: DispatchLog)
        ensures
            r@.spawned =~= Seq::<GenerateTextTaskView>::empty(),
            r@.dropped == 0,
    {
        let r = DispatchLog { spawned: Vec::new(), dropped: 0 };
        proof {
            assert(r@.spawned =~= Seq::<GenerateTextTaskView>::empty());
        }
        r
    }

    /// Take one inbound message. A decodable payload is recorded and its
    /// envelope returned for a handler to run concurrently; anything else
    /// is dropped and counted, and the loop goes on either way.
    pub fn step(&mut self, payload: &Vec<char>) -> (handed: Option<GenerateTextTask>)
        requires
            old(self)@.dropped < u64::MAX,
        ensures
            final(self)@ == spec_dispatch_step(old(self)@, payload@).0,
            (match handed {
                Some(t) => spec_dispatch_step(old(self)@, payload@).1 == Some(t@),
                None => spec_dispatch_step(old(self)@, payload@).1 is None,
            }),
    {
        match decode_generate_text_task(payload) {
            Some(task) => {
                let ghost pre = self@.spawned;
                let copy = GenerateTextTask {
                    task_id: task.task_id.clone(),
                    prompt: (match &task.prompt {
                        Some(p) => Some(p.clone()),
                        None => None,
                    }),
                    max_length: task.max_length,
                };
                proof {
                    assert(copy@ == task@);
                }
                self.spawned.push(copy);
                proof {
                    assert(self@.spawned =~= pre.push(task@));
                }
                Some(task)
            },
            None => {
                self.dropped = self.dropped + 1;
                None
            },
        }
    }
}

/// Law: the dispatch of a message is a function of that message alone. Two
/// loops in any states — one of them possibly holding a handler that never
/// completed — hand out the same envelope for the same payload, and each
/// appends it to its own log; the loop is never blocked by its past.
pub proof fn lemma_dispatch_isolation(
    a: DispatchLogView,
    b: DispatchLogView,
    payload: Seq<char>,
)
    requires
        a.dropped < u64::MAX,
        b.dropped < u64::MAX,
    ensures
        spec_dispatch_step(a, payload).1 == spec_dispatch_step(b, payload).1,
        spec_dec_generate_text_task(payload) matches Some(t) ==> spec_dispatch_step(
            a,
            payload,
        ).0.spawned == a.spawned.push(t) && spec_dispatch_step(b, payload).0.spawned
            == b.spawned.push(t),
{
}

/// Law: a second message is dispatched whatever became of the first. After
/// stepping any state through payloads `first` and then `second`, a
/// decodable `second` stands at the end of the log — no completion of the
/// first message's handler was needed.
pub proof fn lemma_dispatch_processes_next(
    st: DispatchLogView,
    first: Seq<char>,
    second: Seq<char>,
)
    requires
        st.dropped + 2 <= u64::MAX,
    ensures
        ({
            let st1 = spec_dispatch_step(st, first).0;
            let (st2, handed) = spec_dispatch_step(st1, second);
            spec_dec_generate_text_task(second) matches Some(t) ==> handed == Some(t)
                && st2.spawned.len() > 0 && st2.spawned.last() == t
        }),
{
}

} // verus!
