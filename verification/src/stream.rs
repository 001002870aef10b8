//! The per-task streaming state machine: consuming a response stream chunk
//! by chunk, forwarding progress events, accumulating the full text, and
//! honouring cooperative cancellation.
//!
//! The cancellation flag is checked before each chunk is processed. When it
//! is set, the run consumes nothing further: no progress is forwarded for
//! that chunk or any later one, the flag is cleared for reuse, and the run
//! ends without error — cancellation is not a failure.

use vstd::prelude::*;

use crate::demux::{concat_text_to, PartEvent};

verus! {

/// A clone of a part event, field by field.
pub fn clone_event(e: &PartEvent) -> (r: PartEvent)
    ensures
        r.deep_view() == e.deep_view(),
{
    match e {
        PartEvent::Text { thought, content } => PartEvent::Text {
            thought: *thought,
            content: content.clone(),
        },
        PartEvent::Binary { mime } => PartEvent::Binary { mime: mime.clone() },
    }
}

/// One completion task's streaming state: the message slot its events are
/// tagged with, the text accumulated so far for the terminal payload, and
/// whether the run has ended, by exhaustion or by cancellation.
pub struct StreamRun {
    pub index: usize,
    pub acc: String,
    pub done: bool,
    pub cancelled: bool,
}

impl StreamRun {
    /// A fresh run targeting the message slot `index`.
    pub fn new(index: usize) -> (r: StreamRun)
        ensures
            r.index == index,
            r.acc@.len() == 0,
            !r.done,
            !r.cancelled,
    {
        StreamRun { index, acc: String::new(), done: false, cancelled: false }
    }

    /// Consumes one chunk of the response stream.
    ///
    /// The stop flag is read first: when it is set, the chunk is discarded —
    /// zero progress events are forwarded from this chunk boundary on — the
    /// flag reads false again afterwards, and the run ends as cancelled (no
    /// further chunk may be consumed). Otherwise every part of the chunk is
    /// forwarded as a progress event tagged with the target slot, in order,
    /// and the chunk's text is appended to the accumulated payload.
    pub fn on_chunk(&mut self, stop_flag: &mut bool, events: &Vec<PartEvent>) -> (r: Vec<
        (usize, PartEvent),
    >)
        requires
            !old(self).done,
            !old(self).cancelled,
        ensures
            *old(stop_flag) ==> {
                &&& r@.len() == 0
                &&& !*final(stop_flag)
                &&& final(self).done && final(self).cancelled
                &&& final(self).acc == old(self).acc
                &&& final(self).index == old(self).index
            },
            !*old(stop_flag) ==> {
                &&& *final(stop_flag) == *old(stop_flag)
                &&& !final(self).done && !final(self).cancelled
                &&& final(self).index == old(self).index
                &&& r@.len() == events@.len()
                &&& forall|k: int| 0 <= k < r@.len() ==> (#[trigger] r@[k]).0 == old(self).index
                &&& forall|k: int|
                    0 <= k < r@.len() ==> (#[trigger] r@[k]).1.deep_view()
                        == events.deep_view()[k]
                &&& final(self).acc@ == old(self).acc@ + concat_text_to(
                    events.deep_view(),
                    events@.len() as int,
                )
            },
    {
        let mut out: Vec<(usize, PartEvent)> = Vec::new();
        if *stop_flag {
            *stop_flag = false;
            self.done = true;
            self.cancelled = true;
            return out;
        }
        let n = events.len();
        let mut i: usize = 0;
        proof {
            assert(self.acc@ =~= old(self).acc@ + concat_text_to(events.deep_view(), 0));
        }
        while i < n
            invariant
                n == events@.len(),
                *stop_flag == *old(stop_flag),
                !self.done && !self.cancelled,
                self.index == old(self).index,
                0 <= i <= n,
                out@.len() == i,
                forall|k: int| 0 <= k < i ==> (#[trigger] out@[k]).0 == self.index,
                forall|k: int|
                    0 <= k < i ==> (#[trigger] out@[k]).1.deep_view() == events.deep_view()[k],
                self.acc@ == old(self).acc@ + concat_text_to(events.deep_view(), i as int),
            decreases n - i,
        {
            let ev = clone_event(&events[i]);
            match &events[i] {
                PartEvent::Text { content, .. } => {
                    self.acc.append(content.as_str());
                },
                PartEvent::Binary { .. } => {},
            }
            out.push((self.index, ev));
            i += 1;
            proof {
                assert(self.acc@ =~= old(self).acc@ + concat_text_to(
                    events.deep_view(),
                    i as int,
                ));
            }
        }
        out
    }

    /// Yields the batch path's terminal success payload: the target slot and
    /// the full accumulated text, delivered as progress and success in one
    /// shot.
    pub fn finish(self) -> (r: (usize, String))
        ensures
            r.0 == self.index,
            r.1 == self.acc,
    {
        (self.index, self.acc)
    }

    /// Yields the streaming path's terminal success payload: the target slot
    /// and an empty placeholder, since the content was already delivered
    /// incrementally (or deliberately discarded on cancellation).
    pub fn finish_streaming(self) -> (r: (usize, String))
        ensures
            r.0 == self.index,
            r.1@ == Seq::<char>::empty(),
    {
        (self.index, String::new())
    }
}

} // verus!
