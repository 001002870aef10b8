//! The stream-to-message demultiplexer: turns the progress-event sequence of
//! one completion task into message mutations.
//!
//! The backend interleaves two content streams in one channel: reasoning
//! ("thought") tokens and final answer tokens. The first thought chunk
//! repurposes the pending placeholder message into a thought message; the
//! first answer chunk after thoughts freezes the thought block and opens a
//! fresh answer message, so the completed thoughts stay visible while the
//! answer renders separately.

use vstd::prelude::*;

use crate::msg::{Message, MsgV, Role};

verus! {

/// One typed content part of a response chunk: text tagged with the
/// thought/answer discriminant, or a binary payload, which this
/// demultiplexer does not handle and surfaces as an explicit error rather
/// than dropping silently.
#[derive(Debug, Clone)]
pub enum PartEvent {
    Text { thought: bool, content: String },
    Binary { mime: String },
}

/// Ghost projection of a part event.
#[verifier::ext_equal]
pub ghost enum PartEventV {
    Text { thought: bool, content: Seq<char> },
    Binary { mime: Seq<char> },
}

impl DeepView for PartEvent {
    type V = PartEventV;

    open spec fn deep_view(&self) -> PartEventV {
        match self {
            PartEvent::Text { thought, content } => PartEventV::Text {
                thought: *thought,
                content: content@,
            },
            PartEvent::Binary { mime } => PartEventV::Binary { mime: mime@ },
        }
    }
}

/// Why the demultiplexer rejected an event.
#[derive(Debug, Clone, PartialEq, Eq, Structural)]
pub enum DemuxError {
    /// The chunk carried a non-text part, which has no message rendering.
    UnsupportedPart,
}

/// The mutation one text part applies to the message list, `now` being the
/// creation time given to a newly opened answer message.
pub open spec fn demux_step(msgs: Seq<MsgV>, thought: bool, text: Seq<char>, now: u64) -> Seq<
    MsgV,
>
    recommends
        msgs.len() > 0,
{
    let li = msgs.len() - 1;
    let last = msgs[li];
    if thought {
        // A thought chunk: flip the current message to thought mode in
        // place (a no-op when it already is) and append the text.
        msgs.update(li, MsgV { is_thought: true, content: last.content + text, ..last })
    } else if last.is_thought {
        // Thoughts just ended: freeze the thought block and open a fresh
        // answer message carrying this text.
        msgs.update(li, MsgV { is_generating: false, ..last }).push(
            MsgV {
                role: Role::Assistant,
                content: text,
                model: last.model,
                time: now,
                files: Seq::<Seq<char>>::empty(),
                is_generating: true,
                is_error: false,
                is_thought: false,
                is_prepending: false,
            },
        )
    } else {
        // No thoughts, or a continuation of the answer: append in place.
        msgs.update(li, MsgV { content: last.content + text, ..last })
    }
}

/// The index of the first event the demultiplexer cannot handle, or the
/// length when it can handle them all.
pub open spec fn first_unsupported(evs: Seq<PartEventV>) -> int
    decreases evs.len(),
{
    if evs.len() == 0 {
        0
    } else if evs[0] is Binary {
        0
    } else {
        1 + first_unsupported(evs.drop_first())
    }
}

/// The message list after applying the first `n` events, all of them text.
pub open spec fn demux_fold(msgs: Seq<MsgV>, evs: Seq<PartEventV>, now: u64, n: int) -> Seq<MsgV>
    decreases n,
{
    if n <= 0 {
        msgs
    } else {
        let prev = demux_fold(msgs, evs, now, n - 1);
        match evs[n - 1] {
            PartEventV::Text { thought, content } => demux_step(prev, thought, content, now),
            PartEventV::Binary { .. } => prev,
        }
    }
}

/// Applies one text part to the message list, as `demux_step` states.
pub fn apply_text_part(messages: &mut Vec<Message>, thought: bool, text: &str, now: u64)
    requires
        old(messages)@.len() > 0,
    ensures
        final(messages).deep_view() == demux_step(old(messages).deep_view(), thought, text@, now),
        final(messages)@.len() >= old(messages)@.len() >= 1,
{
    let ghost before = messages.deep_view();
    let li = messages.len() - 1;
    let mut last = match messages.pop() {
        Some(m) => m,
        None => {
            proof {
                assert(false);
            }
            Message::default()
        },
    };
    if thought {
        last.is_thought = true;
        last.content.append(text);
        messages.push(last);
        proof {
            assert(messages.deep_view() =~~= demux_step(before, thought, text@, now));
        }
    } else if last.is_thought {
        last.is_generating = false;
        let model = last.model.clone();
        let answer = Message::assistant(text.to_owned(), model, now);
        messages.push(last);
        messages.push(answer);
        proof {
            assert(messages.deep_view() =~~= demux_step(before, thought, text@, now));
        }
    } else {
        last.content.append(text);
        messages.push(last);
        proof {
            assert(messages.deep_view() =~~= demux_step(before, thought, text@, now));
        }
    }
}

/// Applies a sequence of progress events to the message list, in order. On
/// the first non-text event it stops and reports it, leaving the mutations
/// of every earlier event in place.
pub fn apply_events(messages: &mut Vec<Message>, events: &Vec<PartEvent>, now: u64) -> (r: Result<
    (),
    DemuxError,
>)
    requires
        old(messages)@.len() > 0,
    ensures
        final(messages).deep_view() == demux_fold(
            old(messages).deep_view(),
            events.deep_view(),
            now,
            first_unsupported(events.deep_view()),
        ),
        r is Ok <==> first_unsupported(events.deep_view()) == events@.len(),
        final(messages)@.len() >= 1,
{
    let ghost evs = events.deep_view();
    let ghost before = messages.deep_view();
    let n = events.len();
    let mut i: usize = 0;
    while i < n
        invariant
            n == events@.len(),
            evs == events.deep_view(),
            before == old(messages).deep_view(),
            0 <= i <= n,
            forall|k: int| 0 <= k < i ==> !(#[trigger] evs[k] is Binary),
            messages.deep_view() == demux_fold(before, evs, now, i as int),
            messages@.len() >= 1,
        decreases n - i,
    {
        match &events[i] {
            PartEvent::Text { thought, content } => {
                apply_text_part(messages, *thought, content.as_str(), now);
            },
            PartEvent::Binary { .. } => {
                proof {
                    assert(evs[i as int] is Binary);
                    lemma_first_unsupported(evs, i as int);
                }
                return Err(DemuxError::UnsupportedPart);
            },
        }
        i += 1;
    }
    proof {
        lemma_first_unsupported(evs, n as int);
    }
    Ok(())
}

/// Whether an event is an answer-text part: text not flagged as thought.
pub open spec fn is_answer_text(e: PartEventV) -> bool {
    match e {
        PartEventV::Text { thought, .. } => !thought,
        PartEventV::Binary { .. } => false,
    }
}

/// The text carried by the first `n` events, concatenated in order.
pub open spec fn concat_text_to(evs: Seq<PartEventV>, n: int) -> Seq<char>
    decreases n,
{
    if n <= 0 {
        Seq::<char>::empty()
    } else {
        concat_text_to(evs, n - 1) + (match evs[n - 1] {
            PartEventV::Text { content, .. } => content,
            PartEventV::Binary { .. } => Seq::<char>::empty(),
        })
    }
}

/// A chunk sequence of two thought parts and one answer part, fed to a
/// pending placeholder, yields exactly two messages: a thought message
/// holding both thought texts, frozen at the boundary, and a separate answer
/// message holding the answer text and still generating. Earlier messages
/// are untouched.
pub proof fn lemma_demux_thought_answer(
    msgs: Seq<MsgV>,
    a: Seq<char>,
    b: Seq<char>,
    c: Seq<char>,
    now: u64,
)
    requires
        msgs.len() > 0,
        msgs.last().content.len() == 0,
        !msgs.last().is_thought,
        msgs.last().is_generating,
    ensures
        ({
            let evs = seq![
                PartEventV::Text { thought: true, content: a },
                PartEventV::Text { thought: true, content: b },
                PartEventV::Text { thought: false, content: c },
            ];
            let r = demux_fold(msgs, evs, now, 3);
            &&& r.len() == msgs.len() + 1
            &&& r[msgs.len() - 1].is_thought
            &&& r[msgs.len() - 1].content == a + b
            &&& !r[msgs.len() - 1].is_generating
            &&& r.last().content == c
            &&& r.last().is_generating
            &&& !r.last().is_thought
            &&& forall|i: int| 0 <= i < msgs.len() - 1 ==> r[i] == msgs[i]
        }),
{
    let evs = seq![
        PartEventV::Text { thought: true, content: a },
        PartEventV::Text { thought: true, content: b },
        PartEventV::Text { thought: false, content: c },
    ];
    reveal_with_fuel(demux_fold, 4);
    let li = msgs.len() - 1;
    assert(evs[0] == (PartEventV::Text { thought: true, content: a }));
    assert(evs[1] == (PartEventV::Text { thought: true, content: b }));
    assert(evs[2] == (PartEventV::Text { thought: false, content: c }));
    let r1 = demux_fold(msgs, evs, now, 1);
    assert(r1 == demux_step(msgs, true, a, now));
    assert(r1[li].content =~= a);
    let r2 = demux_fold(msgs, evs, now, 2);
    assert(r2 == demux_step(r1, true, b, now));
    let r = demux_fold(msgs, evs, now, 3);
    assert(r == demux_step(r2, false, c, now));
    assert(r[li].content =~= a + b);
}

/// A chunk sequence with no thought parts never opens a second message: the
/// whole text concatenation, in order, is appended to the one pending
/// message, which keeps its flags.
pub proof fn lemma_demux_no_thoughts(msgs: Seq<MsgV>, evs: Seq<PartEventV>, now: u64, n: int)
    requires
        msgs.len() > 0,
        !msgs.last().is_thought,
        0 <= n <= evs.len(),
        forall|k: int| 0 <= k < n ==> is_answer_text(#[trigger] evs[k]),
    ensures
        demux_fold(msgs, evs, now, n) == msgs.update(
            msgs.len() - 1,
            MsgV { content: msgs.last().content + concat_text_to(evs, n), ..msgs.last() },
        ),
    decreases n,
{
    let li = msgs.len() - 1;
    if n == 0 {
        assert(msgs.last().content + concat_text_to(evs, 0) =~= msgs.last().content);
        assert(demux_fold(msgs, evs, now, 0) =~~= msgs.update(
            li,
            MsgV { content: msgs.last().content + concat_text_to(evs, 0), ..msgs.last() },
        ));
    } else {
        lemma_demux_no_thoughts(msgs, evs, now, n - 1);
        let prev = demux_fold(msgs, evs, now, n - 1);
        assert(prev.last() == MsgV {
            content: msgs.last().content + concat_text_to(evs, n - 1),
            ..msgs.last()
        });
        match evs[n - 1] {
            PartEventV::Text { thought, content } => {
                assert(!thought);
                assert(msgs.last().content + concat_text_to(evs, n - 1) + content
                    =~= msgs.last().content + concat_text_to(evs, n));
                assert(demux_fold(msgs, evs, now, n) =~~= msgs.update(
                    li,
                    MsgV { content: msgs.last().content + concat_text_to(evs, n), ..msgs.last() },
                ));
            },
            PartEventV::Binary { .. } => {
                assert(false);
            },
        }
    }
}

/// When the first `i` events are all text, the first unsupported index is
/// at least `i`; it is exactly `i` when event `i` is binary or `i` is the
/// end.
proof fn lemma_first_unsupported(evs: Seq<PartEventV>, i: int)
    requires
        0 <= i <= evs.len(),
        forall|k: int| 0 <= k < i ==> !(#[trigger] evs[k] is Binary),
    ensures
        i <= first_unsupported(evs) <= evs.len(),
        i < evs.len() && evs[i] is Binary ==> first_unsupported(evs) == i,
        i == evs.len() ==> first_unsupported(evs) == i,
    decreases evs.len(),
{
    if evs.len() == 0 {
    } else if evs[0] is Binary {
        assert(i == 0);
    } else {
        let tail = evs.drop_first();
        if i == 0 {
            lemma_first_unsupported(tail, 0);
        } else {
            assert(forall|k: int| 0 <= k < i - 1 ==> !(#[trigger] tail[k] is Binary)) by {
                assert(forall|k: int|
                    0 <= k < i - 1 ==> (#[trigger] tail[k]) == evs[k + 1]);
            }
            lemma_first_unsupported(tail, i - 1);
            if i < evs.len() && evs[i] is Binary {
                assert(tail[i - 1] is Binary);
            }
        }
    }
}

} // verus!
