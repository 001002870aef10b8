//! The message model: roles, content, attachments and generation flags.

use vstd::prelude::*;

verus! {

/// Author of a message.
#[derive(Clone, Copy, Debug, PartialEq, Eq, Structural)]
pub enum Role {
    User,
    Assistant,
}

/// Ghost projection of a message: every field the logic reads, as a
/// mathematical value.
#[verifier::ext_equal]
pub ghost struct MsgV {
    pub role: Role,
    pub content: Seq<char>,
    pub model: Seq<char>,
    pub time: u64,
    pub files: Seq<Seq<char>>,
    pub is_generating: bool,
    pub is_error: bool,
    pub is_thought: bool,
    pub is_prepending: bool,
}

/// One entry of a conversation's history.
///
/// The role is fixed at construction; content is appended to while
/// `is_generating` holds and frozen afterwards. `is_thought` marks the
/// transient reasoning sub-stream; `is_prepending` marks the one message
/// whose content is being edited in place. `time` is the creation time in
/// milliseconds since the epoch. `files` holds the paths of attachments.
#[derive(Debug, Clone)]
pub struct Message {
    pub role: Role,
    pub content: String,
    pub model: String,
    pub time: u64,
    pub files: Vec<String>,
    pub is_generating: bool,
    pub is_error: bool,
    pub is_thought: bool,
    pub is_prepending: bool,
}

impl View for Message {
    type V = MsgV;

    open spec fn view(&self) -> MsgV {
        MsgV {
            role: self.role,
            content: self.content@,
            model: self.model@,
            time: self.time,
            files: self.files.deep_view(),
            is_generating: self.is_generating,
            is_error: self.is_error,
            is_thought: self.is_thought,
            is_prepending: self.is_prepending,
        }
    }
}

impl DeepView for Message {
    type V = MsgV;

    open spec fn deep_view(&self) -> MsgV {
        self.view()
    }
}

impl MsgV {
    /// Whether this message authored by the user.
    pub open spec fn spec_is_user(self) -> bool {
        self.role is User
    }

    /// A message contributes nothing to a submitted transcript when it is a
    /// thought or carries neither content nor attachments.
    pub open spec fn skipped_in_transcript(self) -> bool {
        self.is_thought || (self.content.len() == 0 && self.files.len() == 0)
    }
}

impl Message {
    /// A fresh user message carrying a prompt and the attachments picked for it.
    pub fn user(content: String, model: String, files: Vec<String>, now: u64) -> (r: Message)
        ensures
            r@ == (MsgV {
                role: Role::User,
                content: content@,
                model: model@,
                time: now,
                files: files.deep_view(),
                is_generating: false,
                is_error: false,
                is_thought: false,
                is_prepending: false,
            }),
    {
        Message {
            role: Role::User,
            content,
            model,
            time: now,
            files,
            is_generating: false,
            is_error: false,
            is_thought: false,
            is_prepending: false,
        }
    }

    /// A fresh assistant message; it starts in generating state so the
    /// consumer shows a spinner until text or a terminal outcome arrives.
    pub fn assistant(content: String, model: String, now: u64) -> (r: Message)
        ensures
            r@ == (MsgV {
                role: Role::Assistant,
                content: content@,
                model: model@,
                time: now,
                files: Seq::<Seq<char>>::empty(),
                is_generating: true,
                is_error: false,
                is_thought: false,
                is_prepending: false,
            }),
    {
        let files: Vec<String> = Vec::new();
        assert(files.deep_view() =~= Seq::<Seq<char>>::empty());
        Message {
            role: Role::Assistant,
            content,
            model,
            time: now,
            files,
            is_generating: true,
            is_error: false,
            is_thought: false,
            is_prepending: false,
        }
    }

    /// Whether this message was authored by the user.
    pub fn is_user(&self) -> (r: bool)
        ensures
            r == self@.spec_is_user(),
    {
        matches!(self.role, Role::User)
    }
}

impl Default for Message {
    /// An empty user message with no attachments and time zero.
    fn default() -> (r: Message)
        ensures
            r@ == (MsgV {
                role: Role::User,
                content: Seq::<char>::empty(),
                model: Seq::<char>::empty(),
                time: 0,
                files: Seq::<Seq<char>>::empty(),
                is_generating: false,
                is_error: false,
                is_thought: false,
                is_prepending: false,
            }),
    {
        let files: Vec<String> = Vec::new();
        let content = String::new();
        let model = String::new();
        assert(files.deep_view() =~= Seq::<Seq<char>>::empty());
        Message {
            role: Role::User,
            content,
            model,
            time: 0,
            files,
            is_generating: false,
            is_error: false,
            is_thought: false,
            is_prepending: false,
        }
    }
}

} // verus!
