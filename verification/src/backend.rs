//! The boundary to the completion backend's client crate: declarations of
//! its types, thin trusted wrappers around its constructors and accessors
//! with contracts over named session contents, and the verified conversion
//! from the library's compacted turns to the wire session.
//!
//! The network calls themselves — the blocking ask and the streaming ask —
//! are async and stay with the caller that runs the task; everything here is
//! synchronous construction and reading.

use vstd::prelude::*;

use gemini_client_api::gemini::types::request::{InlineData, Part, PartType};
use gemini_client_api::gemini::types::response::GeminiResponse;
use gemini_client_api::gemini::types::sessions::Session;

use crate::compact::{alternating, MediaV, PartV, SessionPart, Turn, TurnV};
use crate::demux::PartEvent;
use crate::media::{is_allowed_mime, spec_allowed_mime};

verus! {

#[verifier::external_type_specification]
#[verifier::external_body]
pub struct ExSession(Session);

#[verifier::external_type_specification]
#[verifier::external_body]
pub struct ExPart(Part);

#[verifier::external_type_specification]
#[verifier::external_body]
pub struct ExGeminiResponse(GeminiResponse);

/// What a wire part holds, in the library's part model: its text, or its
/// inline payload's mime type and base64 data.
pub uninterp spec fn part_view(p: Part) -> PartV;

/// The chats a wire session holds, in order: the author (true for the user)
/// and the parts, in the library's part model.
pub uninterp spec fn session_chats(s: Session) -> Seq<(bool, Seq<PartV>)>;

/// The history window a wire session was created with.
pub uninterp spec fn session_limit(s: Session) -> usize;

/// The views of a part list, element by element.
pub open spec fn part_views(ps: Seq<Part>) -> Seq<PartV> {
    ps.map_values(|p: Part| part_view(p))
}

/// Relies on `Session::new`: a fresh session holds no chats and keeps the
/// given history window.
#[verifier::external_body]
fn session_new(history_limit: usize) -> (r: Session)
    ensures
        session_chats(r) == Seq::<(bool, Seq<PartV>)>::empty(),
        session_limit(r) == history_limit,
{
    Session::new(history_limit)
}

/// Relies on `Session::ask_parts`: with the last chat not user-authored (or
/// none) it appends one user chat with exactly these parts, merging nothing;
/// with the window not yet full it evicts nothing. Its internal `add_chat`
/// can refuse only function-role chats, which this library never builds, so
/// the call returns for every input admitted here.
#[verifier::external_body]
fn session_ask(s: &mut Session, parts: Vec<Part>)
    requires
        session_chats(*old(s)).len() < session_limit(*old(s)),
        session_chats(*old(s)).len() == 0 || !session_chats(*old(s)).last().0,
    ensures
        session_chats(*final(s)) == session_chats(*old(s)).push((true, part_views(parts@))),
        session_limit(*final(s)) == session_limit(*old(s)),
{
    s.ask_parts(parts);
}

/// Relies on `Session::reply_parts`: with the last chat user-authored (or
/// none) it appends one model chat with exactly these parts, merging
/// nothing; with the window not yet full it evicts nothing; as with
/// `session_ask`, it returns for every input admitted here.
#[verifier::external_body]
fn session_reply(s: &mut Session, parts: Vec<Part>)
    requires
        session_chats(*old(s)).len() < session_limit(*old(s)),
        session_chats(*old(s)).len() == 0 || session_chats(*old(s)).last().0,
    ensures
        session_chats(*final(s)) == session_chats(*old(s)).push((false, part_views(parts@))),
        session_limit(*final(s)) == session_limit(*old(s)),
{
    s.reply_parts(parts);
}

/// Relies on `Part::new` with a text payload: the part holds exactly that
/// text.
#[verifier::external_body]
fn part_text(text: String) -> (r: Part)
    ensures
        part_view(r) == PartV::Text(text@),
{
    Part::new(PartType::Text(text))
}

/// Relies on `InlineData::new`, `Part::new` and mime's parser: every mime
/// type of the backend's allow-list is a lowercase `type/subtype` pair that
/// the parser accepts and stores verbatim (known types as their static
/// lowercase atoms, others as the lowercased copy of the already-lowercase
/// input), so the part holds exactly this mime type and payload.
#[verifier::external_body]
fn part_inline(mime_str: &str, data: String) -> (r: Part)
    requires
        spec_allowed_mime(mime_str@),
    ensures
        part_view(r) == PartV::Media(MediaV { mime: mime_str@, data: data@ }),
{
    let mime: mime::Mime = mime_str.parse().unwrap();
    Part::new(PartType::InlineData(InlineData::new(mime, data)))
}

/// Relies on the response's public candidate list and the chat and part
/// getters: the typed parts of the first candidate, each mapped to the
/// library's event model — text with its thought flag, anything else as an
/// unhandled binary part. What comes back depends on the backend; the
/// callers' contracts hold for every value of it.
#[verifier::external_body]
pub fn response_events(r: &GeminiResponse) -> Vec<PartEvent> {
    match r.candidates.first() {
        Some(c) => c.content.parts().iter().map(|p| match p.data() {
            PartType::Text(t) => PartEvent::Text { thought: p.is_thought(), content: t.clone() },
            PartType::InlineData(d) => PartEvent::Binary { mime: d.mime_type().to_string() },
            _ => PartEvent::Binary { mime: String::new() },
        }).collect(),
        None => Vec::new(),
    }
}

/// The wire form of a turn's first `k` parts: text as text, media whose mime
/// type the backend accepts as inline data, other media dropped. The
/// compactor only produces accepted mime types, so on that path nothing is
/// dropped.
pub open spec fn wire_parts(ps: Seq<PartV>, k: int) -> Seq<PartV>
    decreases k,
{
    if k <= 0 {
        Seq::<PartV>::empty()
    } else {
        wire_parts(ps, k - 1) + (match ps[k - 1] {
            PartV::Text(t) => seq![PartV::Text(t)],
            PartV::Media(m) => if spec_allowed_mime(m.mime) {
                seq![PartV::Media(m)]
            } else {
                Seq::<PartV>::empty()
            },
        })
    }
}

/// The wire form of the first `n` turns: one chat per turn, in order, the
/// author kept and the parts in wire form.
pub open spec fn wire_chats(ts: Seq<TurnV>, n: int) -> Seq<(bool, Seq<PartV>)>
    decreases n,
{
    if n <= 0 {
        Seq::<(bool, Seq<PartV>)>::empty()
    } else {
        wire_chats(ts, n - 1).push(
            (ts[n - 1].user, wire_parts(ts[n - 1].parts, ts[n - 1].parts.len() as int)),
        )
    }
}

/// Builds the wire session from a compacted transcript: one chat per turn,
/// in order, user turns as user chats and the rest as model chats, text
/// parts as text, accepted media as inline data with that mime type and
/// payload, and other media dropped — as `wire_chats` states. The window is
/// as large as the turn count, so nothing is evicted. The input alternates
/// by author, as `compact` guarantees of every transcript.
pub fn to_backend_session(turns: &Vec<Turn>) -> (r: Session)
    requires
        alternating(turns.deep_view()),
    ensures
        session_chats(r) == wire_chats(turns.deep_view(), turns@.len() as int),
        session_limit(r) == turns@.len(),
{
    let ghost tv = turns.deep_view();
    let n = turns.len();
    let mut s = session_new(n);
    let mut i: usize = 0;
    proof {
        assert(session_chats(s) =~= wire_chats(tv, 0));
    }
    while i < n
        invariant
            n == turns@.len(),
            tv == turns.deep_view(),
            alternating(tv),
            0 <= i <= n,
            session_chats(s) == wire_chats(tv, i as int),
            session_chats(s).len() == i,
            session_limit(s) == n,
        decreases n - i,
    {
        let turn = &turns[i];
        proof {
            assert(tv[i as int] == turn.deep_view());
        }
        let mut parts: Vec<Part> = Vec::new();
        let np = turn.parts.len();
        let mut k: usize = 0;
        proof {
            assert(part_views(parts@) =~= wire_parts(turn.parts.deep_view(), 0));
        }
        while k < np
            invariant
                np == turn.parts@.len(),
                0 <= k <= np,
                part_views(parts@) == wire_parts(turn.parts.deep_view(), k as int),
            decreases np - k,
        {
            let ghost pre = parts@;
            proof {
                assert(turn.parts.deep_view()[k as int] == turn.parts@[k as int].deep_view());
            }
            match &turn.parts[k] {
                SessionPart::Text(t) => {
                    parts.push(part_text(t.clone()));
                },
                SessionPart::Media(m) => {
                    if is_allowed_mime(m.mime.as_str()) {
                        parts.push(part_inline(m.mime.as_str(), m.data.clone()));
                    }
                },
            }
            k += 1;
            proof {
                assert(part_views(parts@) =~~= wire_parts(turn.parts.deep_view(), k as int));
            }
        }
        proof {
            assert(part_views(parts@) == wire_parts(
                tv[i as int].parts,
                tv[i as int].parts.len() as int,
            ));
            if i > 0 {
                // the last chat mirrors the previous turn, whose author
                // differs from this one's
                assert(session_chats(s).last() == wire_chats(tv, i as int).last());
                assert(session_chats(s).last().0 == tv[i - 1].user);
                assert(tv[i - 1].user != tv[i as int].user);
            }
        }
        if turn.user {
            session_ask(&mut s, parts);
        } else {
            session_reply(&mut s, parts);
        }
        i += 1;
        proof {
            assert(session_chats(s) =~~= wire_chats(tv, i as int));
        }
    }
    s
}

} // verus!
