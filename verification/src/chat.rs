//! One conversation's state: its message history, composer, summary and
//! prepend-edit buffer, with the retry / regenerate / prepend editing
//! operations and the application of terminal completion outcomes.

use vstd::prelude::*;

use crate::channel::TaskError;
use crate::errnorm::{normalize_error, spec_normalized};
use crate::msg::{Message, MsgV, Role};
use crate::textutil::{chars_of, spec_trim_end, string_of, trim_end_chars};

verus! {

/// The configuration the dispatch decision reads: the backend credential,
/// whether to stream, and whether past thoughts are folded back into the
/// submitted history.
pub struct Settings {
    pub api_key: String,
    pub model: String,
    pub use_streaming: bool,
    pub include_thoughts_in_history: bool,
}

impl Default for Settings {
    /// No credential, the default model name, streaming on, thoughts kept
    /// out of future context.
    fn default() -> (r: Settings)
        ensures
            r.api_key@.len() == 0,
            r.model@ == "gemini-2.5-flash"@,
            r.use_streaming,
            !r.include_thoughts_in_history,
    {
        Settings {
            api_key: String::new(),
            model: "gemini-2.5-flash".to_owned(),
            use_streaming: true,
            include_thoughts_in_history: false,
        }
    }
}

/// A short display name for the assistant author of a message.
pub fn make_short_name(name: &str) -> (r: String)
    ensures
        r@ == "Gemini"@,
{
    "Gemini".to_string()
}

/// The Unicode uppercase mapping of one character: one or more characters, a
/// function of the character alone.
pub uninterp spec fn spec_upper(c: char) -> Seq<char>;

/// Relies on `char::to_uppercase`: yields the character's full Unicode
/// uppercase mapping, at least one character.
#[verifier::external_body]
fn upper_char(c: char) -> (r: String)
    ensures
        r@ == spec_upper(c),
        r@.len() >= 1,
{
    c.to_uppercase().collect()
}

/// The chat summary drawn from a prompt, from position `i` on: characters up
/// to the first line break, capped at `SUMMARY_LIMIT` with a trailing
/// ellipsis, the first character uppercased.
pub open spec fn spec_summary_from(p: Seq<char>, i: int) -> Seq<char>
    recommends
        0 <= i,
    decreases p.len() - i,
{
    if i < 0 || i >= p.len() {
        Seq::<char>::empty()
    } else if i >= SUMMARY_LIMIT {
        seq!['\u{2026}']
    } else if p[i] == '\n' {
        Seq::<char>::empty()
    } else {
        (if i == 0 {
            spec_upper(p[0])
        } else {
            seq![p[i]]
        }) + spec_summary_from(p, i + 1)
    }
}

/// The summary the first prompt of a chat produces.
pub open spec fn spec_summary(p: Seq<char>) -> Seq<char> {
    spec_summary_from(p, 0)
}

/// The most characters a summary keeps before it is cut with an ellipsis.
pub const SUMMARY_LIMIT: usize = 24;

/// Builds the summary of a prompt: its first line, capped at
/// `SUMMARY_LIMIT` characters with an ellipsis, first character uppercased.
pub fn make_summary(prompt: &str) -> (r: String)
    ensures
        r@ == spec_summary(prompt@),
{
    let p = chars_of(prompt);
    let n = p.len();
    let mut out: Vec<char> = Vec::new();
    let mut i: usize = 0;
    while i < n
        invariant_except_break
            n == p@.len(),
            0 <= i <= n,
            out@ + spec_summary_from(p@, i as int) == spec_summary(p@),
        ensures
            out@ == spec_summary(p@),
        decreases n - i,
    {
        if i >= SUMMARY_LIMIT {
            out.push('\u{2026}');
            proof {
                assert(out@ =~= spec_summary(p@));
            }
            break;
        }
        if p[i] == '\n' {
            proof {
                assert(out@ =~= spec_summary(p@));
            }
            break;
        }
        if i == 0 {
            let up = upper_char(p[0]);
            let mut uc = chars_of(up.as_str());
            out.append(&mut uc);
        } else {
            out.push(p[i]);
        }
        i += 1;
        proof {
            assert(out@ + spec_summary_from(p@, i as int) =~= spec_summary(p@));
        }
    }
    proof {
        if n == 0 {
            assert(out@ =~= spec_summary(p@));
        }
    }
    string_of(out)
}

/// A clone of a message, field by field.
pub fn clone_message(m: &Message) -> (r: Message)
    ensures
        r@ == m@,
{
    let mut files: Vec<String> = Vec::new();
    let nf = m.files.len();
    let mut k: usize = 0;
    while k < nf
        invariant
            nf == m.files@.len(),
            0 <= k <= nf,
            files@.len() == k,
            forall|j: int| 0 <= j < k ==> #[trigger] files@[j]@ == m.files@[j]@,
        decreases nf - k,
    {
        files.push(m.files[k].clone());
        k += 1;
    }
    proof {
        assert(files.deep_view() =~~= m.files.deep_view());
    }
    let r = Message {
        role: m.role,
        content: m.content.clone(),
        model: m.model.clone(),
        time: m.time,
        files,
        is_generating: m.is_generating,
        is_error: m.is_error,
        is_thought: m.is_thought,
        is_prepending: m.is_prepending,
    };
    proof {
        assert(r@ =~~= m@);
    }
    r
}

/// A clone of a whole message list.
pub fn clone_messages(ms: &Vec<Message>) -> (r: Vec<Message>)
    ensures
        r.deep_view() == ms.deep_view(),
{
    let mut r: Vec<Message> = Vec::new();
    let n = ms.len();
    let mut i: usize = 0;
    while i < n
        invariant
            n == ms@.len(),
            0 <= i <= n,
            r@.len() == i,
            forall|j: int| 0 <= j < i ==> #[trigger] r@[j]@ == ms@[j]@,
        decreases n - i,
    {
        r.push(clone_message(&ms[i]));
        i += 1;
    }
    proof {
        assert(r.deep_view() =~~= ms.deep_view());
    }
    r
}

/// The messages that survive a fresh send: every non-error message, in order.
pub open spec fn spec_keep_non_errors(msgs: Seq<MsgV>) -> Seq<MsgV> {
    msgs.filter(|m: MsgV| !m.is_error)
}

/// The last message, with its generating flag cleared.
pub open spec fn spec_clear_last_generating(msgs: Seq<MsgV>) -> Seq<MsgV> {
    if msgs.len() == 0 {
        msgs
    } else {
        msgs.update(msgs.len() - 1, MsgV { is_generating: false, ..msgs.last() })
    }
}

/// The message slot a terminal outcome lands in: the carried index, falling
/// back to the last message when the index is stale.
pub open spec fn spec_target_slot(len: int, idx: int) -> int {
    if idx < len {
        idx
    } else {
        len - 1
    }
}

/// What the conversation view asks its owner to do after a frame.
#[derive(Debug, Clone, Copy)]
pub enum ChatAction {
    /// Nothing to do.
    Idle,
    /// Open the file picker and hand the chosen files to the chat with this
    /// identity.
    PickFiles { id: usize },
}

/// What `prepare_dispatch` decided.
#[derive(Debug, Clone, PartialEq, Eq, Structural)]
pub enum Dispatch {
    /// No credential is configured: report a terminal error for the slot,
    /// without contacting the backend.
    MissingKey { index: usize },
    /// Submit the compacted transcript, targeting the slot, streaming or
    /// batch.
    Run { index: usize, streaming: bool },
}

/// One conversation: the identity its background tasks are keyed by, its
/// history and the editing state around it.
pub struct Chat {
    pub id: usize,
    pub chatbox: String,
    pub messages: Vec<Message>,
    pub summary: String,
    pub model: String,
    pub files: Vec<String>,
    pub prepend_buf: String,
    pub retry_message_idx: Option<usize>,
}

impl Chat {
    /// A fresh conversation with the given identity and selected model.
    pub fn new(id: usize, model: String) -> (r: Chat)
        ensures
            r.id == id,
            r.model@ == model@,
            r.messages@.len() == 0,
            r.chatbox@.len() == 0,
            r.summary@.len() == 0,
            r.files@.len() == 0,
            r.prepend_buf@.len() == 0,
            r.retry_message_idx is None,
    {
        Chat {
            id,
            chatbox: String::new(),
            messages: Vec::new(),
            summary: String::new(),
            model,
            files: Vec::new(),
            prepend_buf: String::new(),
            retry_message_idx: None,
        }
    }

    /// The identity background-task events of this conversation carry.
    pub fn id(&self) -> (r: usize)
        ensures
            r == self.id,
    {
        self.id
    }

    /// Submits the composer: drops old error messages, appends the user
    /// message with the trimmed prompt and the picked files, seeds the
    /// summary from the first prompt, clears the composer, and appends the
    /// assistant placeholder the response will stream into. A send with an
    /// empty composer and no files changes nothing. Returns whether a
    /// completion run must now be dispatched.
    pub fn send_message(&mut self, now: u64) -> (r: bool)
        ensures
            ({
                let o = old(self);
                let prompt = spec_trim_end(o.chatbox@);
                if o.chatbox@.len() == 0 && o.files@.len() == 0 {
                    r == false && *final(self) == *o
                } else {
                    let user = MsgV {
                        role: Role::User,
                        content: prompt,
                        model: o.model@,
                        time: now,
                        files: o.files.deep_view(),
                        is_generating: false,
                        is_error: false,
                        is_thought: false,
                        is_prepending: false,
                    };
                    let holder = MsgV {
                        role: Role::Assistant,
                        content: Seq::<char>::empty(),
                        model: o.model@,
                        time: now,
                        files: Seq::<Seq<char>>::empty(),
                        is_generating: true,
                        is_error: false,
                        is_thought: false,
                        is_prepending: false,
                    };
                    &&& r == true
                    &&& final(self).messages.deep_view() == spec_keep_non_errors(
                        o.messages.deep_view(),
                    ).push(user).push(holder)
                    &&& final(self).chatbox@.len() == 0
                    &&& final(self).files@.len() == 0
                    &&& final(self).summary@ == (if o.summary@.len() == 0 {
                        spec_summary(prompt)
                    } else {
                        o.summary@
                    })
                    &&& final(self).id == o.id
                    &&& final(self).model == o.model
                    &&& final(self).prepend_buf == o.prepend_buf
                    &&& final(self).retry_message_idx == o.retry_message_idx
                }
            }),
    {
        if self.chatbox.as_str().unicode_len() == 0 && self.files.len() == 0 {
            return false;
        }
        let ghost o_msgs = self.messages.deep_view();

        // Remove old error messages.
        let mut kept: Vec<Message> = Vec::new();
        let n = self.messages.len();
        let mut i: usize = 0;
        while i < n
            invariant
                n == self.messages@.len(),
                0 <= i <= n,
                o_msgs == self.messages.deep_view(),
                kept.deep_view() == o_msgs.take(i as int).filter(|m: MsgV| !m.is_error),
            decreases n - i,
        {
            let ghost prefix = o_msgs.take(i as int);
            if !self.messages[i].is_error {
                kept.push(clone_message(&self.messages[i]));
            }
            i += 1;
            proof {
                reveal(Seq::filter);
                assert(o_msgs.take(i as int).drop_last() =~= prefix);
                assert(kept.deep_view() =~~= o_msgs.take(i as int).filter(|m: MsgV| !m.is_error));
            }
        }
        proof {
            assert(o_msgs.take(n as int) =~= o_msgs);
        }
        self.messages = kept;

        let prompt_chars = trim_end_chars(&chars_of(self.chatbox.as_str()));
        let prompt = string_of(prompt_chars);

        if self.summary.as_str().unicode_len() == 0 {
            self.summary = make_summary(prompt.as_str());
        }

        let mut files: Vec<String> = Vec::new();
        core::mem::swap(&mut self.files, &mut files);
        self.chatbox = String::new();

        let model_for_user = self.model.clone();
        let user = Message::user(prompt, model_for_user, files, now);
        self.messages.push(user);

        let model_for_holder = self.model.clone();
        let holder = Message::assistant(String::new(), model_for_holder, now);
        self.messages.push(holder);

        proof {
            assert(self.messages.deep_view() =~~= spec_keep_non_errors(o_msgs).push(
                self.messages.deep_view()[self.messages.deep_view().len() - 2],
            ).push(self.messages.deep_view().last()));
        }
        true
    }

    /// Submits a fixed prompt, as if it had been typed into the composer.
    pub fn send_text(&mut self, text: &str, now: u64) -> (r: bool)
        ensures
            ({
                let o = old(self);
                let prompt = spec_trim_end(text@);
                if text@.len() == 0 && o.files@.len() == 0 {
                    r == false && final(self).messages == o.messages && final(self).chatbox@
                        == text@
                } else {
                    let user = MsgV {
                        role: Role::User,
                        content: prompt,
                        model: o.model@,
                        time: now,
                        files: o.files.deep_view(),
                        is_generating: false,
                        is_error: false,
                        is_thought: false,
                        is_prepending: false,
                    };
                    let holder = MsgV {
                        role: Role::Assistant,
                        content: Seq::<char>::empty(),
                        model: o.model@,
                        time: now,
                        files: Seq::<Seq<char>>::empty(),
                        is_generating: true,
                        is_error: false,
                        is_thought: false,
                        is_prepending: false,
                    };
                    &&& r == true
                    &&& final(self).messages.deep_view() == spec_keep_non_errors(
                        o.messages.deep_view(),
                    ).push(user).push(holder)
                    &&& final(self).chatbox@.len() == 0
                    &&& final(self).files@.len() == 0
                }
            }),
    {
        self.chatbox = text.to_owned();
        self.send_message(now)
    }

    /// Records that the user chose to retry the failed exchange at `idx`;
    /// the next composer frame consumes it.
    pub fn request_retry(&mut self, idx: usize)
        ensures
            final(self).retry_message_idx == Some(idx),
            final(self).messages == old(self).messages,
            final(self).chatbox == old(self).chatbox,
            final(self).files == old(self).files,
            final(self).id == old(self).id,
            final(self).model == old(self).model,
            final(self).summary == old(self).summary,
            final(self).prepend_buf == old(self).prepend_buf,
    {
        self.retry_message_idx = Some(idx);
    }

    /// Takes the pending retry request, once.
    pub fn take_retry(&mut self) -> (r: Option<usize>)
        ensures
            r == old(self).retry_message_idx,
            final(self).retry_message_idx is None,
            final(self).messages == old(self).messages,
            final(self).chatbox == old(self).chatbox,
            final(self).files == old(self).files,
            final(self).id == old(self).id,
            final(self).model == old(self).model,
            final(self).summary == old(self).summary,
            final(self).prepend_buf == old(self).prepend_buf,
    {
        self.retry_message_idx.take()
    }

    /// Retries the failed exchange at `idx`: removes exactly the error
    /// message there and the user message just before it, restores that user
    /// message's content and files into the composer, and treats it as a
    /// fresh send.
    pub fn retry(&mut self, idx: usize, now: u64) -> (r: bool)
        requires
            1 <= idx < old(self).messages@.len(),
        ensures
            ({
                let o = old(self);
                let prior = o.messages.deep_view()[idx - 1];
                let kept = o.messages.deep_view().remove(idx as int).remove(idx - 1);
                let prompt = spec_trim_end(prior.content);
                if prior.content.len() == 0 && prior.files.len() == 0 {
                    // Nothing to restore: the messages are removed and the
                    // empty composer sends nothing.
                    &&& r == false
                    &&& final(self).messages.deep_view() == kept
                    &&& final(self).chatbox@.len() == 0
                    &&& final(self).files.deep_view() == prior.files
                    &&& final(self).summary == o.summary
                    &&& final(self).id == o.id
                    &&& final(self).model == o.model
                    &&& final(self).prepend_buf == o.prepend_buf
                    &&& final(self).retry_message_idx == o.retry_message_idx
                } else {
                    let user = MsgV {
                        role: Role::User,
                        content: prompt,
                        model: o.model@,
                        time: now,
                        files: prior.files,
                        is_generating: false,
                        is_error: false,
                        is_thought: false,
                        is_prepending: false,
                    };
                    let holder = MsgV {
                        role: Role::Assistant,
                        content: Seq::<char>::empty(),
                        model: o.model@,
                        time: now,
                        files: Seq::<Seq<char>>::empty(),
                        is_generating: true,
                        is_error: false,
                        is_thought: false,
                        is_prepending: false,
                    };
                    &&& r == true
                    &&& final(self).messages.deep_view() == spec_keep_non_errors(kept).push(
                        user,
                    ).push(holder)
                    &&& final(self).chatbox@.len() == 0
                    &&& final(self).files@.len() == 0
                    &&& final(self).summary@ == (if o.summary@.len() == 0 {
                        spec_summary(prompt)
                    } else {
                        o.summary@
                    })
                    &&& final(self).id == o.id
                    &&& final(self).model == o.model
                    &&& final(self).prepend_buf == o.prepend_buf
                    &&& final(self).retry_message_idx == o.retry_message_idx
                }
            }),
    {
        self.chatbox = self.messages[idx - 1].content.clone();
        let mut files: Vec<String> = Vec::new();
        let nf = self.messages[idx - 1].files.len();
        let mut k: usize = 0;
        while k < nf
            invariant
                1 <= idx < self.messages@.len(),
                self.messages == old(self).messages,
                nf == self.messages@[idx - 1].files@.len(),
                0 <= k <= nf,
                files@.len() == k,
                forall|j: int|
                    0 <= j < k ==> #[trigger] files@[j]@ == self.messages@[idx - 1].files@[j]@,
            decreases nf - k,
        {
            files.push(self.messages[idx - 1].files[k].clone());
            k += 1;
        }
        proof {
            assert(files.deep_view() =~~= old(self).messages.deep_view()[idx - 1].files);
        }
        self.files = files;
        let _ = self.messages.remove(idx);
        let _ = self.messages.remove(idx - 1);
        proof {
            assert(self.messages.deep_view() =~~= old(self).messages.deep_view().remove(
                idx as int,
            ).remove(idx - 1));
        }
        self.send_message(now)
    }

    /// Opens the prepend editor on the message at `idx`, closing it on every
    /// other message: at most one message is in prepend-edit mode at a time.
    pub fn begin_prepend(&mut self, idx: usize)
        requires
            idx < old(self).messages@.len(),
        ensures
            final(self).messages.deep_view() == Seq::new(
                old(self).messages.deep_view().len(),
                |j: int|
                    MsgV {
                        is_prepending: j == idx,
                        ..old(self).messages.deep_view()[j]
                    },
            ),
            final(self).prepend_buf@.len() == 0,
            final(self).chatbox == old(self).chatbox,
            final(self).files == old(self).files,
            final(self).model == old(self).model,
            final(self).summary == old(self).summary,
            final(self).retry_message_idx == old(self).retry_message_idx,
            final(self).id == old(self).id,
    {
        let n = self.messages.len();
        let mut i: usize = 0;
        while i < n
            invariant
                n == self.messages@.len(),
                n == old(self).messages@.len(),
                idx < n,
                0 <= i <= n,
                forall|j: int| i <= j < n ==> #[trigger] self.messages@[j]@ == old(
                    self,
                ).messages@[j]@,
                forall|j: int|
                    0 <= j < i ==> #[trigger] self.messages@[j]@ == (MsgV {
                        is_prepending: j == idx,
                        ..old(self).messages@[j]@
                    }),
                self.chatbox == old(self).chatbox,
                self.prepend_buf == old(self).prepend_buf,
                self.files == old(self).files,
                self.model == old(self).model,
                self.summary == old(self).summary,
                self.retry_message_idx == old(self).retry_message_idx,
                self.id == old(self).id,
            decreases n - i,
        {
            let mut m = clone_message(&self.messages[i]);
            m.is_prepending = i == idx;
            self.messages[i] = m;
            i += 1;
        }
        self.prepend_buf = String::new();
        proof {
            assert(self.messages.deep_view() =~~= Seq::new(
                old(self).messages.deep_view().len(),
                |j: int|
                    MsgV {
                        is_prepending: j == idx,
                        ..old(self).messages.deep_view()[j]
                    },
            ));
        }
    }

    /// Confirms a regeneration: the target's content is replaced by the
    /// prepend buffer (the draft the model will continue from), the editor
    /// closes, the slot re-enters generating state, and the buffer clears.
    /// The caller then dispatches a completion run with `idx` as the target.
    pub fn confirm_regenerate(&mut self, idx: usize)
        requires
            idx < old(self).messages@.len(),
        ensures
            final(self).messages.deep_view() == old(self).messages.deep_view().update(
                idx as int,
                MsgV {
                    content: old(self).prepend_buf@,
                    is_prepending: false,
                    is_generating: true,
                    ..old(self).messages.deep_view()[idx as int]
                },
            ),
            final(self).prepend_buf@.len() == 0,
            final(self).chatbox == old(self).chatbox,
            final(self).files == old(self).files,
            final(self).model == old(self).model,
            final(self).summary == old(self).summary,
            final(self).retry_message_idx == old(self).retry_message_idx,
            final(self).id == old(self).id,
    {
        let mut m = clone_message(&self.messages[idx]);
        m.content = self.prepend_buf.clone();
        m.is_prepending = false;
        m.is_generating = true;
        self.messages[idx] = m;
        self.prepend_buf = String::new();
        proof {
            assert(self.messages.deep_view() =~~= old(self).messages.deep_view().update(
                idx as int,
                MsgV {
                    content: old(self).prepend_buf@,
                    is_prepending: false,
                    is_generating: true,
                    ..old(self).messages.deep_view()[idx as int]
                },
            ));
        }
    }

    /// Confirms an in-place edit: the content is replaced by the buffer and
    /// the editor closes, with no regeneration.
    pub fn confirm_edit(&mut self, idx: usize)
        requires
            idx < old(self).messages@.len(),
        ensures
            final(self).messages.deep_view() == old(self).messages.deep_view().update(
                idx as int,
                MsgV {
                    content: old(self).prepend_buf@,
                    is_prepending: false,
                    ..old(self).messages.deep_view()[idx as int]
                },
            ),
            final(self).prepend_buf@.len() == 0,
            final(self).chatbox == old(self).chatbox,
            final(self).files == old(self).files,
            final(self).model == old(self).model,
            final(self).summary == old(self).summary,
            final(self).retry_message_idx == old(self).retry_message_idx,
            final(self).id == old(self).id,
    {
        let mut m = clone_message(&self.messages[idx]);
        m.content = self.prepend_buf.clone();
        m.is_prepending = false;
        self.messages[idx] = m;
        self.prepend_buf = String::new();
        proof {
            assert(self.messages.deep_view() =~~= old(self).messages.deep_view().update(
                idx as int,
                MsgV {
                    content: old(self).prepend_buf@,
                    is_prepending: false,
                    ..old(self).messages.deep_view()[idx as int]
                },
            ));
        }
    }

    /// Cancels the prepend editor on the message at `idx` and clears the
    /// buffer.
    pub fn cancel_prepend(&mut self, idx: usize)
        requires
            idx < old(self).messages@.len(),
        ensures
            final(self).messages.deep_view() == old(self).messages.deep_view().update(
                idx as int,
                MsgV { is_prepending: false, ..old(self).messages.deep_view()[idx as int] },
            ),
            final(self).prepend_buf@.len() == 0,
            final(self).chatbox == old(self).chatbox,
            final(self).files == old(self).files,
            final(self).model == old(self).model,
            final(self).summary == old(self).summary,
            final(self).retry_message_idx == old(self).retry_message_idx,
            final(self).id == old(self).id,
    {
        let mut m = clone_message(&self.messages[idx]);
        m.is_prepending = false;
        self.messages[idx] = m;
        self.prepend_buf = String::new();
        proof {
            assert(self.messages.deep_view() =~~= old(self).messages.deep_view().update(
                idx as int,
                MsgV { is_prepending: false, ..old(self).messages.deep_view()[idx as int] },
            ));
        }
    }

    /// Decides how to dispatch a completion run for the pending slot: with
    /// no credential configured the run fails at once, without contacting
    /// the backend; otherwise it targets the last message, streaming when
    /// asked to.
    pub fn prepare_dispatch(&self, settings: &Settings) -> (r: Dispatch)
        requires
            self.messages@.len() > 0,
        ensures
            settings.api_key@.len() == 0 ==> r == (Dispatch::MissingKey {
                index: (self.messages@.len() - 1) as usize,
            }),
            settings.api_key@.len() > 0 ==> r == (Dispatch::Run {
                index: (self.messages@.len() - 1) as usize,
                streaming: settings.use_streaming,
            }),
    {
        let index = self.messages.len() - 1;
        if settings.api_key.as_str().unicode_len() == 0 {
            Dispatch::MissingKey { index }
        } else {
            Dispatch::Run { index, streaming: settings.use_streaming }
        }
    }

    /// Decides how to dispatch the completion run a confirmed regeneration
    /// asks for: the run targets the regenerated slot itself, so the
    /// transcript is cut before it while its draft seeds the session.
    pub fn prepare_regenerate_dispatch(&self, settings: &Settings, target: usize) -> (r: Dispatch)
        requires
            target < self.messages@.len(),
        ensures
            settings.api_key@.len() == 0 ==> r == (Dispatch::MissingKey { index: target }),
            settings.api_key@.len() > 0 ==> r == (Dispatch::Run {
                index: target,
                streaming: settings.use_streaming,
            }),
    {
        if settings.api_key.as_str().unicode_len() == 0 {
            Dispatch::MissingKey { index: target }
        } else {
            Dispatch::Run { index: target, streaming: settings.use_streaming }
        }
    }

    /// Applies a terminal completion outcome to the history. A success
    /// changes no content (it was delivered incrementally); a domain error
    /// writes the normalized error text into the slot the outcome carries
    /// (falling back to the last message when the index is stale); an
    /// abnormal termination is attributed to the last message, with a
    /// distinct description. Afterwards the final message never keeps a
    /// stale generating flag. Returns the normalized text to surface in a
    /// blocking dialog, for the error outcomes.
    pub fn apply_terminal(
        &mut self,
        outcome: Result<(usize, String), TaskError<(usize, String)>>,
    ) -> (r: Option<String>)
        requires
            old(self).messages@.len() > 0,
        ensures
            final(self).chatbox == old(self).chatbox,
            final(self).files == old(self).files,
            final(self).model == old(self).model,
            final(self).summary == old(self).summary,
            final(self).retry_message_idx == old(self).retry_message_idx,
            final(self).id == old(self).id,
            final(self).prepend_buf == old(self).prepend_buf,
            outcome is Ok ==> final(self).messages.deep_view() == spec_clear_last_generating(
                old(self).messages.deep_view(),
            ) && r is None,
            ({
                let msgs = old(self).messages.deep_view();
                outcome matches Err(TaskError::Domain((idx, e))) ==> {
                    let t = spec_target_slot(msgs.len() as int, idx as int);
                    let text = spec_normalized(e@);
                    &&& final(self).messages.deep_view() == spec_clear_last_generating(
                        msgs.update(
                            t,
                            MsgV {
                                content: text,
                                is_error: true,
                                is_generating: false,
                                ..msgs[t]
                            },
                        ),
                    )
                    &&& r matches Some(d) && d@ == text
                }
            }),
            ({
                let msgs = old(self).messages.deep_view();
                outcome matches Err(TaskError::Panicked(e)) ==> {
                    let t = msgs.len() - 1;
                    let text = spec_normalized("Tokio task panicked: "@ + e@);
                    &&& final(self).messages.deep_view() == spec_clear_last_generating(
                        msgs.update(
                            t,
                            MsgV {
                                content: text,
                                is_error: true,
                                is_generating: false,
                                ..msgs[t]
                            },
                        ),
                    )
                    &&& r matches Some(d) && d@ == text
                }
            }),
    {
        let ghost msgs = old(self).messages.deep_view();
        let ghost g_outcome = outcome;
        let r = match outcome {
            Ok(_) => None,
            Err(te) => {
                let (t, raw) = match te {
                    TaskError::Domain((idx, e)) => {
                        let t = if idx < self.messages.len() {
                            idx
                        } else {
                            self.messages.len() - 1
                        };
                        (t, e)
                    },
                    TaskError::Panicked(e) => {
                        let mut described = "Tokio task panicked: ".to_owned();
                        described.append(e.as_str());
                        (self.messages.len() - 1, described)
                    },
                };
                let text = normalize_error(raw.as_str());
                let mut m = clone_message(&self.messages[t]);
                m.content = text.clone();
                m.is_error = true;
                m.is_generating = false;
                self.messages[t] = m;
                Some(text)
            },
        };
        // Whatever the outcome, the last message must not keep spinning.
        let li = self.messages.len() - 1;
        let mut last = clone_message(&self.messages[li]);
        last.is_generating = false;
        self.messages[li] = last;
        proof {
            if g_outcome is Ok {
                assert(self.messages.deep_view() =~~= spec_clear_last_generating(msgs));
            } else {
                match g_outcome {
                    Err(TaskError::Domain((idx, e))) => {
                        let t = spec_target_slot(msgs.len() as int, idx as int);
                        assert(self.messages.deep_view() =~~= spec_clear_last_generating(
                            msgs.update(
                                t,
                                MsgV {
                                    content: spec_normalized(e@),
                                    is_error: true,
                                    is_generating: false,
                                    ..msgs[t]
                                },
                            ),
                        ));
                    },
                    Err(TaskError::Panicked(e)) => {
                        let t = msgs.len() - 1;
                        assert(self.messages.deep_view() =~~= spec_clear_last_generating(
                            msgs.update(
                                t,
                                MsgV {
                                    content: spec_normalized("Tokio task panicked: "@ + e@),
                                    is_error: true,
                                    is_generating: false,
                                    ..msgs[t]
                                },
                            ),
                        ));
                    },
                    _ => {},
                }
            }
        }
        r
    }

    /// The content of the most recent message that has any, prefixed with
    /// `You: ` when the user wrote it.
    pub fn last_message_contents(&self) -> (r: Option<String>)
        ensures
            ({
                let s = spec_last_contents(self.messages.deep_view());
                match r {
                    Some(text) => s matches Some(v) && text@ == v,
                    None => s is None,
                }
            }),
    {
        let mut i = self.messages.len();
        proof {
            assert(self.messages.deep_view().take(self.messages@.len() as int)
                =~= self.messages.deep_view());
        }
        while i > 0
            invariant
                i <= self.messages@.len(),
                spec_last_contents(self.messages.deep_view()) == spec_last_contents(
                    self.messages.deep_view().take(i as int),
                ),
            decreases i,
        {
            proof {
                assert(self.messages.deep_view().take(i as int).drop_last()
                    =~= self.messages.deep_view().take(i - 1));
            }
            let m = &self.messages[i - 1];
            if m.content.as_str().unicode_len() > 0 {
                if m.is_user() {
                    let mut text = "You: ".to_owned();
                    text.append(m.content.as_str());
                    return Some(text);
                } else {
                    return Some(m.content.clone());
                }
            }
            i -= 1;
        }
        proof {
            assert(self.messages.deep_view().take(0) =~= Seq::<MsgV>::empty());
        }
        None
    }
}

/// The content the sidebar previews: that of the most recent message with
/// any, prefixed when the user wrote it.
pub open spec fn spec_last_contents(msgs: Seq<MsgV>) -> Option<Seq<char>>
    decreases msgs.len(),
{
    if msgs.len() == 0 {
        None
    } else if msgs.last().content.len() > 0 {
        if msgs.last().spec_is_user() {
            Some("You: "@ + msgs.last().content)
        } else {
            Some(msgs.last().content)
        }
    } else {
        spec_last_contents(msgs.drop_last())
    }
}

/// Folds past thoughts back into the submitted history: each thought
/// message loses its thought mark and its content is framed by the
/// reflection banners, so the backend sees it as ordinary assistant context.
pub fn fold_thoughts(messages: &mut Vec<Message>)
    ensures
        final(messages).deep_view() == Seq::new(
            old(messages).deep_view().len(),
            |j: int| spec_folded(old(messages).deep_view()[j]),
        ),
{
    let n = messages.len();
    let mut i: usize = 0;
    while i < n
        invariant
            n == messages@.len(),
            n == old(messages)@.len(),
            0 <= i <= n,
            forall|j: int| i <= j < n ==> #[trigger] messages@[j]@ == old(messages)@[j]@,
            forall|j: int|
                0 <= j < i ==> #[trigger] messages@[j]@ == spec_folded(old(messages)@[j]@),
        decreases n - i,
    {
        if messages[i].is_thought {
            let mut m = clone_message(&messages[i]);
            let mut framed = "MY INNER REFLECTIONS: ".to_owned();
            framed.append(m.content.as_str());
            framed.append("--- end of inner reflections ---\\r\\n");
            m.content = framed;
            m.is_thought = false;
            messages[i] = m;
        }
        i += 1;
    }
    proof {
        assert(messages.deep_view() =~~= Seq::new(
            old(messages).deep_view().len(),
            |j: int| spec_folded(old(messages).deep_view()[j]),
        ));
    }
}

/// A message as `fold_thoughts` leaves it.
pub open spec fn spec_folded(m: MsgV) -> MsgV {
    if m.is_thought {
        MsgV {
            is_thought: false,
            content: "MY INNER REFLECTIONS: "@ + m.content
                + "--- end of inner reflections ---\\r\\n"@,
            ..m
        }
    } else {
        m
    }
}

} // verus!
