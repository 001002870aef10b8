//! Transcript compaction: turning a flat message history into an ordered
//! sequence of author-tagged turns, ready for submission to the completion
//! backend.
//!
//! Thought messages and messages with neither content nor usable attachments
//! contribute nothing. Consecutive contributing messages by one author are
//! merged into a single turn, so no two adjacent turns of the result share an
//! author. When the message at the target index is mid-generation, the
//! transcript is cut before that index, and the target's own content (the
//! prepend draft, if any) is appended as a final assistant-authored seed.

use vstd::prelude::*;

use crate::msg::{Message, MsgV};

verus! {

/// A converted attachment: a mime type and a base64 payload.
#[derive(Debug, Clone)]
pub struct MediaPart {
    pub mime: String,
    pub data: String,
}

/// Ghost projection of a converted attachment.
#[verifier::ext_equal]
pub ghost struct MediaV {
    pub mime: Seq<char>,
    pub data: Seq<char>,
}

impl DeepView for MediaPart {
    type V = MediaV;

    open spec fn deep_view(&self) -> MediaV {
        MediaV { mime: self.mime@, data: self.data@ }
    }
}

/// One unit of submitted content: plain text or an inline media payload.
#[derive(Debug, Clone)]
pub enum SessionPart {
    Text(String),
    Media(MediaPart),
}

/// Ghost projection of a session part.
#[verifier::ext_equal]
pub ghost enum PartV {
    Text(Seq<char>),
    Media(MediaV),
}

impl DeepView for SessionPart {
    type V = PartV;

    open spec fn deep_view(&self) -> PartV {
        match self {
            SessionPart::Text(s) => PartV::Text(s@),
            SessionPart::Media(m) => PartV::Media(m.deep_view()),
        }
    }
}

/// One author's contiguous block of content within a submitted session.
#[derive(Debug, Clone)]
pub struct Turn {
    pub user: bool,
    pub parts: Vec<SessionPart>,
}

/// Ghost projection of a turn.
#[verifier::ext_equal]
pub ghost struct TurnV {
    pub user: bool,
    pub parts: Seq<PartV>,
}

impl DeepView for Turn {
    type V = TurnV;

    open spec fn deep_view(&self) -> TurnV {
        TurnV { user: self.user, parts: self.parts.deep_view() }
    }
}

/// The final path component: everything after the last `/`.
pub open spec fn spec_basename(p: Seq<char>) -> Seq<char>
    decreases p.len(),
{
    if p.len() == 0 {
        p
    } else if p.last() == '/' {
        Seq::<char>::empty()
    } else {
        spec_basename(p.drop_last()).push(p.last())
    }
}

/// The synthetic text label naming an attachment in the transcript.
pub open spec fn spec_label(p: Seq<char>) -> Seq<char> {
    "File with name: "@ + spec_basename(p)
}

/// The parts contributed by the first `k` attachments of a message: for each
/// successfully converted file, a text label naming it followed by the media
/// payload; failed conversions are dropped.
pub open spec fn files_parts_to(files: Seq<Seq<char>>, conv: Seq<Option<MediaV>>, k: int) -> Seq<
    PartV,
>
    decreases k,
{
    if k <= 0 {
        Seq::<PartV>::empty()
    } else {
        files_parts_to(files, conv, k - 1) + (match conv[k - 1] {
            Some(md) => seq![PartV::Text(spec_label(files[k - 1])), PartV::Media(md)],
            None => Seq::<PartV>::empty(),
        })
    }
}

/// All parts a message contributes: its attachments' parts, then its text.
pub open spec fn msg_parts(m: MsgV, conv: Seq<Option<MediaV>>) -> Seq<PartV> {
    files_parts_to(m.files, conv, m.files.len() as int) + (if m.content.len() > 0 {
        seq![PartV::Text(m.content)]
    } else {
        Seq::<PartV>::empty()
    })
}

/// Whether a message contributes nothing to the transcript: it is skipped
/// outright (a thought, or empty with no attachments), or it yields no parts
/// at all because every attachment failed conversion.
pub open spec fn contributes_nothing(m: MsgV, conv: Seq<Option<MediaV>>) -> bool {
    m.skipped_in_transcript() || msg_parts(m, conv).len() == 0
}

/// Accumulator of the grouping pass: the turns flushed so far, the parts of
/// the still-open group, and its author (`None` before the first
/// contributing message).
#[verifier::ext_equal]
pub ghost struct GroupState {
    pub author: Option<bool>,
    pub buf: Seq<PartV>,
    pub turns: Seq<TurnV>,
}

/// The empty accumulator.
pub open spec fn group_init() -> GroupState {
    GroupState { author: None, buf: Seq::<PartV>::empty(), turns: Seq::<TurnV>::empty() }
}

/// One grouping step. A message that contributes nothing leaves the state
/// unchanged. Otherwise, when the author changes, the open group is flushed
/// as a completed turn for the previous author, and the message's parts open
/// (or extend) the group of its own author.
pub open spec fn group_step(st: GroupState, m: MsgV, conv: Seq<Option<MediaV>>) -> GroupState {
    if contributes_nothing(m, conv) {
        st
    } else {
        let flushed = if st.author is Some && st.author != Some(m.spec_is_user()) && st.buf.len()
            > 0 {
            GroupState {
                author: st.author,
                buf: Seq::<PartV>::empty(),
                turns: st.turns.push(TurnV { user: st.author->Some_0, parts: st.buf }),
            }
        } else {
            st
        };
        GroupState {
            author: Some(m.spec_is_user()),
            buf: flushed.buf + msg_parts(m, conv),
            turns: flushed.turns,
        }
    }
}

/// The grouping pass over the first `n` messages.
pub open spec fn group_to(
    msgs: Seq<MsgV>,
    convs: Seq<Seq<Option<MediaV>>>,
    n: int,
) -> GroupState
    decreases n,
{
    if n <= 0 {
        group_init()
    } else {
        group_step(group_to(msgs, convs, n - 1), msgs[n - 1], convs[n - 1])
    }
}

/// The index before which messages are taken: when the target slot is
/// mid-generation, everything from the target onward is excluded, so a
/// regeneration never sees the stale partial answer.
pub open spec fn cut_index(msgs: Seq<MsgV>, target: int) -> int {
    if 0 <= target < msgs.len() && msgs[target].is_generating {
        target
    } else {
        msgs.len() as int
    }
}

/// The grouped transcript: the grouping pass over the included prefix, with
/// the final open group flushed.
pub open spec fn grouped_turns(
    msgs: Seq<MsgV>,
    convs: Seq<Seq<Option<MediaV>>>,
    target: int,
) -> Seq<TurnV> {
    let st = group_to(msgs, convs, cut_index(msgs, target));
    if st.buf.len() > 0 {
        st.turns.push(TurnV { user: st.author->Some_0, parts: st.buf })
    } else {
        st.turns
    }
}

/// Appends the regeneration seed: the target message's content, carried as
/// assistant-authored text. It continues the final assistant turn when there
/// is one, else it stands as a turn of its own.
pub open spec fn with_seed(turns: Seq<TurnV>, text: Seq<char>) -> Seq<TurnV> {
    if turns.len() > 0 && !turns.last().user {
        turns.drop_last().push(
            TurnV { user: false, parts: turns.last().parts.push(PartV::Text(text)) },
        )
    } else {
        turns.push(TurnV { user: false, parts: seq![PartV::Text(text)] })
    }
}

/// The complete compaction: grouped transcript plus, when the target slot
/// holds a non-empty draft, the assistant-authored seed.
pub open spec fn compact_spec(
    msgs: Seq<MsgV>,
    convs: Seq<Seq<Option<MediaV>>>,
    target: int,
) -> Seq<TurnV> {
    let base = grouped_turns(msgs, convs, target);
    if 0 <= target < msgs.len() && msgs[target].content.len() > 0 {
        with_seed(base, msgs[target].content)
    } else {
        base
    }
}

/// No two adjacent turns share an author.
pub open spec fn alternating(ts: Seq<TurnV>) -> bool {
    forall|i: int| 0 <= i < ts.len() - 1 ==> #[trigger] ts[i].user != ts[i + 1].user
}

/// Invariant of the grouping pass: before the first contributing message
/// nothing is open; afterwards the open group is non-empty and its author
/// differs from the author of the last flushed turn, and the flushed turns
/// alternate.
pub open spec fn group_inv(st: GroupState) -> bool {
    &&& (st.author is None ==> st.buf.len() == 0 && st.turns.len() == 0)
    &&& (st.author is Some ==> st.buf.len() > 0)
    &&& alternating(st.turns)
    &&& (st.author is Some && st.turns.len() > 0 ==> st.turns.last().user != st.author->Some_0)
}

proof fn lemma_group_wf(msgs: Seq<MsgV>, convs: Seq<Seq<Option<MediaV>>>, n: int)
    ensures
        group_inv(group_to(msgs, convs, n)),
    decreases n,
{
    if n <= 0 {
    } else {
        lemma_group_wf(msgs, convs, n - 1);
        let st = group_to(msgs, convs, n - 1);
        let st1 = group_step(st, msgs[n - 1], convs[n - 1]);
        if !contributes_nothing(msgs[n - 1], convs[n - 1]) {
            if st.author is Some && st.author != Some(msgs[n - 1].spec_is_user()) && st.buf.len()
                > 0 {
                let pushed = st.turns.push(TurnV { user: st.author->Some_0, parts: st.buf });
                assert forall|i: int| 0 <= i < pushed.len() - 1 implies #[trigger] pushed[i].user
                    != pushed[i + 1].user by {
                    if i < st.turns.len() - 1 {
                        assert(st.turns[i].user != st.turns[i + 1].user);
                    }
                }
            }
        }
    }
}

/// A thought message, or one with neither content nor attachments, never
/// opens or extends a turn: the grouping state is untouched by it, so such
/// messages never appear in the output. The same holds when every one of the
/// message's attachments failed conversion and it carries no text.
pub proof fn lemma_skipped_message_contributes_nothing(
    st: GroupState,
    m: MsgV,
    conv: Seq<Option<MediaV>>,
)
    requires
        m.skipped_in_transcript() || msg_parts(m, conv).len() == 0,
    ensures
        group_step(st, m, conv) == st,
{
}

/// The grouping pass over a prefix that stops before `k` does not see the
/// entry at `k`: removing it changes nothing there.
proof fn lemma_group_to_before_removed(
    msgs: Seq<MsgV>,
    convs: Seq<Seq<Option<MediaV>>>,
    k: int,
    j: int,
)
    requires
        convs.len() == msgs.len(),
        0 <= k < msgs.len(),
        0 <= j <= k,
    ensures
        group_to(msgs.remove(k), convs.remove(k), j) == group_to(msgs, convs, j),
    decreases j,
{
    if j > 0 {
        lemma_group_to_before_removed(msgs, convs, k, j - 1);
        assert(msgs.remove(k)[j - 1] == msgs[j - 1]);
        assert(convs.remove(k)[j - 1] == convs[j - 1]);
    }
}

/// Past a removed entry that contributed nothing, the grouping pass runs one
/// step ahead of the original's and reaches the same states.
proof fn lemma_group_to_past_removed(
    msgs: Seq<MsgV>,
    convs: Seq<Seq<Option<MediaV>>>,
    k: int,
    j: int,
)
    requires
        convs.len() == msgs.len(),
        0 <= k < msgs.len(),
        contributes_nothing(msgs[k], convs[k]),
        k <= j <= msgs.len() - 1,
    ensures
        group_to(msgs.remove(k), convs.remove(k), j) == group_to(msgs, convs, j + 1),
    decreases j,
{
    if j == k {
        lemma_group_to_before_removed(msgs, convs, k, k);
        assert(group_to(msgs, convs, k + 1) == group_step(
            group_to(msgs, convs, k),
            msgs[k],
            convs[k],
        ));
    } else {
        lemma_group_to_past_removed(msgs, convs, k, j - 1);
        assert(msgs.remove(k)[j - 1] == msgs[j]);
        assert(convs.remove(k)[j - 1] == convs[j]);
    }
}

/// A message that contributes nothing — a thought, an empty message, or one
/// whose every attachment failed conversion — never appears in the output:
/// removing it from the history leaves the compacted session unchanged. The
/// one input left out is a regeneration target, whose seeding rule reads the
/// target slot's own draft even when that slot is such a message.
pub proof fn lemma_compact_drops_skipped(
    msgs: Seq<MsgV>,
    convs: Seq<Seq<Option<MediaV>>>,
    target: int,
    k: int,
)
    requires
        convs.len() == msgs.len(),
        0 <= k < msgs.len(),
        contributes_nothing(msgs[k], convs[k]),
        target >= msgs.len(),
    ensures
        compact_spec(msgs.remove(k), convs.remove(k), target) == compact_spec(
            msgs,
            convs,
            target,
        ),
{
    lemma_group_to_past_removed(msgs, convs, k, msgs.len() - 1);
    assert(cut_index(msgs, target) == msgs.len());
    assert(cut_index(msgs.remove(k), target) == msgs.len() - 1);
}

/// Compaction produces alternating turns: no two adjacent turns of the
/// output share an author, whatever the message history, the conversion
/// outcomes and the regeneration target. Thought messages, and messages that
/// contribute no part, never open or extend a turn, as `group_step` states.
pub proof fn lemma_compact_alternating(
    msgs: Seq<MsgV>,
    convs: Seq<Seq<Option<MediaV>>>,
    target: int,
)
    ensures
        alternating(compact_spec(msgs, convs, target)),
{
    let n = cut_index(msgs, target);
    lemma_group_wf(msgs, convs, n);
    let st = group_to(msgs, convs, n);
    let base = grouped_turns(msgs, convs, target);
    assert forall|i: int| 0 <= i < base.len() - 1 implies #[trigger] base[i].user != base[i
        + 1].user by {
        if i < st.turns.len() - 1 {
            assert(st.turns[i].user != st.turns[i + 1].user);
        }
    }
    if 0 <= target < msgs.len() && msgs[target].content.len() > 0 {
        let out = with_seed(base, msgs[target].content);
        assert forall|i: int| 0 <= i < out.len() - 1 implies #[trigger] out[i].user != out[i
            + 1].user by {
            if base.len() > 0 && !base.last().user {
                assert(out[i].user == base[i].user && out[i + 1].user == base[i + 1].user);
            } else {
                if i < base.len() - 1 {
                    assert(base[i].user != base[i + 1].user);
                }
            }
        }
    }
}

/// Regenerating at a mid-generation index truncates: the grouped transcript
/// is exactly the one compacted from the strict prefix before that index, so
/// no message at or after it — in particular no stale partial answer — is
/// ever included as context. Only the target's own draft content may follow,
/// as the explicit regeneration seed.
pub proof fn lemma_compact_truncates(
    msgs: Seq<MsgV>,
    convs: Seq<Seq<Option<MediaV>>>,
    target: int,
)
    requires
        convs.len() == msgs.len(),
        0 <= target < msgs.len(),
        msgs[target].is_generating,
    ensures
        grouped_turns(msgs, convs, target) == grouped_turns(
            msgs.take(target),
            convs.take(target),
            msgs.len() as int + 1,
        ),
{
    lemma_group_to_prefix(msgs, convs, target, target);
    assert(cut_index(msgs, target) == target);
    assert(cut_index(msgs.take(target), msgs.len() as int + 1) == target);
}

/// The grouping pass over the first `n` items reads nothing past `n`.
proof fn lemma_group_to_prefix(
    msgs: Seq<MsgV>,
    convs: Seq<Seq<Option<MediaV>>>,
    cut: int,
    n: int,
)
    requires
        convs.len() == msgs.len(),
        0 <= n <= cut <= msgs.len(),
    ensures
        group_to(msgs, convs, n) == group_to(msgs.take(cut), convs.take(cut), n),
    decreases n,
{
    if n > 0 {
        lemma_group_to_prefix(msgs, convs, cut, n - 1);
        assert(msgs.take(cut)[n - 1] == msgs[n - 1]);
        assert(convs.take(cut)[n - 1] == convs[n - 1]);
    }
}

proof fn lemma_basename_is_suffix(p: Seq<char>, j: int)
    requires
        0 <= j <= p.len(),
        j == 0 || p[j - 1] == '/',
        forall|k: int| j <= k < p.len() ==> p[k] != '/',
    ensures
        spec_basename(p) == p.subrange(j, p.len() as int),
    decreases p.len(),
{
    if p.len() == 0 {
        assert(spec_basename(p) =~= p.subrange(0, 0));
    } else if p.last() == '/' {
        assert(j == p.len());
        assert(spec_basename(p) =~= p.subrange(j, p.len() as int));
    } else {
        assert(j < p.len());
        lemma_basename_is_suffix(p.drop_last(), j);
        assert(p.drop_last().subrange(j, p.len() - 1) =~= p.subrange(j, p.len() - 1));
        assert(spec_basename(p) =~= p.subrange(j, p.len() as int));
    }
}

/// The final path component of `p`: everything after the last `/`, the whole
/// string when it has none.
pub fn basename(p: &str) -> (r: String)
    ensures
        r@ == spec_basename(p@),
{
    let n = p.unicode_len();
    let mut cut: usize = 0;
    let mut i: usize = 0;
    while i < n
        invariant
            n == p@.len(),
            0 <= cut <= i <= n,
            cut == 0 || p@[cut - 1] == '/',
            forall|k: int| cut <= k < i ==> p@[k] != '/',
        decreases n - i,
    {
        if p.get_char(i) == '/' {
            cut = i + 1;
        }
        i += 1;
    }
    proof {
        lemma_basename_is_suffix(p@, cut as int);
    }
    let tail = p.substring_char(cut, n);
    tail.to_owned()
}

/// The text label that announces an attachment, naming its file.
pub fn attachment_label(path: &str) -> (r: String)
    ensures
        r@ == spec_label(path@),
{
    let mut l = "File with name: ".to_owned();
    let b = basename(path);
    l.append(b.as_str());
    l
}

/// The parts one message contributes: a label and payload for each converted
/// attachment, in file order, then the message's text when it has any.
fn message_parts(m: &Message, conv: &Vec<Option<MediaPart>>) -> (r: Vec<SessionPart>)
    requires
        conv@.len() == m.files@.len(),
    ensures
        r.deep_view() == msg_parts(m@, conv.deep_view()),
{
    let mut parts: Vec<SessionPart> = Vec::new();
    let nf = m.files.len();
    let mut k: usize = 0;
    while k < nf
        invariant
            nf == m.files@.len(),
            conv@.len() == m.files@.len(),
            0 <= k <= nf,
            parts.deep_view() == files_parts_to(m@.files, conv.deep_view(), k as int),
        decreases nf - k,
    {
        proof {
            assert(conv.deep_view()[k as int] == conv@[k as int].deep_view());
            assert(m@.files[k as int] == m.files@[k as int]@);
        }
        match &conv[k] {
            Some(md) => {
                let label = attachment_label(m.files[k].as_str());
                parts.push(SessionPart::Text(label));
                parts.push(
                    SessionPart::Media(MediaPart { mime: md.mime.clone(), data: md.data.clone() }),
                );
            },
            None => {},
        }
        k += 1;
        assert(parts.deep_view() =~= files_parts_to(m@.files, conv.deep_view(), k as int));
    }
    if m.content.as_str().unicode_len() > 0 {
        parts.push(SessionPart::Text(m.content.clone()));
    }
    assert(parts.deep_view() =~= msg_parts(m@, conv.deep_view()));
    parts
}

/// Compacts a message history into the session to submit.
///
/// `conversions` carries, for each message and each of its attachments in
/// order, the outcome the file-conversion collaborator produced for it:
/// `Some` with the converted payload, `None` when conversion failed (the
/// attachment is then dropped from the session, not fatal to the request).
/// `target` is the slot being regenerated, if any; an index at or past the
/// end means no regeneration.
pub fn compact(
    messages: &Vec<Message>,
    conversions: &Vec<Vec<Option<MediaPart>>>,
    target: usize,
) -> (r: Vec<Turn>)
    requires
        conversions@.len() == messages@.len(),
        forall|i: int|
            0 <= i < messages@.len() ==> #[trigger] conversions@[i]@.len()
                == messages@[i].files@.len(),
    ensures
        r.deep_view() == compact_spec(messages.deep_view(), conversions.deep_view(), target as int),
{
    let ghost msgs = messages.deep_view();
    let ghost convs = conversions.deep_view();

    // Regenerating must not include the stale partial answer as context.
    let n = if target < messages.len() && messages[target].is_generating {
        target
    } else {
        messages.len()
    };
    assert(n == cut_index(msgs, target as int));

    let mut turns: Vec<Turn> = Vec::new();
    let mut buf: Vec<SessionPart> = Vec::new();
    let mut author: Option<bool> = None;

    let mut i: usize = 0;
    while i < n
        invariant
            n <= messages@.len(),
            conversions@.len() == messages@.len(),
            forall|j: int|
                0 <= j < messages@.len() ==> #[trigger] conversions@[j]@.len()
                    == messages@[j].files@.len(),
            msgs == messages.deep_view(),
            convs == conversions.deep_view(),
            0 <= i <= n,
            group_to(msgs, convs, i as int).author == author,
            group_to(msgs, convs, i as int).buf =~= buf.deep_view(),
            group_to(msgs, convs, i as int).turns =~= turns.deep_view(),
        decreases n - i,
    {
        let ghost st = group_to(msgs, convs, i as int);
        let m = &messages[i];
        proof {
            assert(msgs[i as int] == m@);
            assert(convs[i as int] == conversions@[i as int].deep_view());
        }
        if !m.is_thought {
            let parts = message_parts(m, &conversions[i]);
            assert(parts.deep_view().len() == parts@.len());
            if parts.len() > 0 {
                assert(!contributes_nothing(msgs[i as int], convs[i as int]));
                let is_user = m.is_user();
                match author {
                    Some(a) if a != is_user => {
                        if buf.len() > 0 {
                            // The previous author's group is complete: flush it.
                            let done = buf;
                            buf = Vec::new();
                            turns.push(Turn { user: a, parts: done });
                        }
                    },
                    _ => {},
                }
                author = Some(is_user);
                let mut parts = parts;
                buf.append(&mut parts);
            } else {
                assert(contributes_nothing(msgs[i as int], convs[i as int]));
            }
        } else {
            assert(contributes_nothing(msgs[i as int], convs[i as int]));
        }
        i += 1;
        proof {
            let st1 = group_step(st, msgs[i - 1], convs[i - 1]);
            assert(group_to(msgs, convs, i as int) == st1);
            assert(st1.turns =~= turns.deep_view());
            assert(st1.buf =~= buf.deep_view());
        }
    }

    // The last group is still open: flush it.
    proof {
        lemma_group_wf(msgs, convs, n as int);
    }
    if buf.len() > 0 {
        match author {
            Some(a) => {
                let done = buf;
                buf = Vec::new();
                turns.push(Turn { user: a, parts: done });
            },
            None => {
                // a non-empty buffer always has an author
                proof {
                    assert(false);
                }
            },
        }
    }
    assert(turns.deep_view() =~= grouped_turns(msgs, convs, target as int));
    let ghost base = grouped_turns(msgs, convs, target as int);

    // Seed a regeneration with the target's draft, continuing the final
    // assistant turn when there is one.
    if target < messages.len() {
        let seed = &messages[target];
        proof {
            assert(msgs[target as int] == seed@);
        }
        if seed.content.as_str().unicode_len() > 0 {
            let text = SessionPart::Text(seed.content.clone());
            let ghost textv = PartV::Text(msgs[target as int].content);
            assert(text.deep_view() == textv);
            let last_is_assistant = if turns.len() > 0 {
                !turns[turns.len() - 1].user
            } else {
                false
            };
            if last_is_assistant {
                let li = turns.len() - 1;
                let mut last = turns.remove(li);
                last.parts.push(text);
                proof {
                    assert(last.deep_view().parts =~= base.last().parts.push(textv));
                }
                turns.push(last);
                proof {
                    assert(turns.deep_view() =~= base.drop_last().push(
                        TurnV { user: false, parts: base.last().parts.push(textv) },
                    ));
                }
            } else {
                let mut seed_parts: Vec<SessionPart> = Vec::new();
                seed_parts.push(text);
                proof {
                    assert(seed_parts.deep_view() =~= seq![textv]);
                }
                turns.push(Turn { user: false, parts: seed_parts });
                proof {
                    assert(turns.deep_view() =~~= base.push(
                        TurnV { user: false, parts: seq![textv] },
                    ));
                }
            }
            assert(turns.deep_view() =~= compact_spec(msgs, convs, target as int));
        }
    }
    assert(turns.deep_view() =~= compact_spec(msgs, convs, target as int));
    turns
}

} // verus!
