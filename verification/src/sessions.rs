//! The collection of conversations: which one is selected, which one is
//! being edited or marked for deletion, and the bookkeeping of adding and
//! removing chats.

use vstd::prelude::*;

use crate::chat::{Chat, Settings};
use crate::export::ChatExportFormat;

verus! {

/// Every conversation of the application, with the selection and editing
/// state around the list.
pub struct Sessions {
    pub chats: Vec<Chat>,
    pub selected_chat: usize,
    pub chat_marked_for_deletion: usize,
    pub edited_chat: Option<usize>,
    pub chat_export_format: ChatExportFormat,
    pub settings: Settings,
}

impl Sessions {
    /// A fresh session store holding one empty conversation. Its chat takes
    /// identity one; later chats take identities past the count so far, so
    /// two live conversations never share one.
    pub fn new() -> (r: Sessions)
        ensures
            r.chats@.len() == 1,
            r.chats@[0].id == 1,
            r.chats@[0].messages@.len() == 0,
            r.selected_chat == 0,
            r.edited_chat is None,
            r.chat_export_format == ChatExportFormat::Plaintext,
    {
        let settings = Settings::default();
        let model = settings.model.clone();
        let mut chats: Vec<Chat> = Vec::new();
        chats.push(Chat::new(1, model));
        Sessions {
            chats,
            selected_chat: 0,
            chat_marked_for_deletion: 0,
            edited_chat: None,
            chat_export_format: ChatExportFormat::Plaintext,
            settings,
        }
    }

    /// The model the settings currently select for new chats.
    pub fn model_picker(&self) -> (r: &String)
        ensures
            r == &self.settings.model,
    {
        &self.settings.model
    }

    /// Appends a fresh conversation whose identity exceeds every live one,
    /// so two live conversations never share an identity and a background
    /// task's events can never be attributed to the wrong chat.
    pub fn add_default_chat(&mut self)
        requires
            forall|j: int|
                0 <= j < old(self).chats@.len() ==> (#[trigger] old(self).chats@[j].id)
                    < usize::MAX,
        ensures
            final(self).chats@.len() == old(self).chats@.len() + 1,
            final(self).chats@.last().messages@.len() == 0,
            final(self).chats@.last().model@ == old(self).settings.model@,
            forall|j: int|
                0 <= j < old(self).chats@.len() ==> final(self).chats@.last().id
                    > (#[trigger] old(self).chats@[j].id),
            forall|j: int|
                0 <= j < old(self).chats@.len() ==> final(self).chats@[j] == old(self).chats@[j],
            final(self).selected_chat == old(self).selected_chat,
            final(self).settings == old(self).settings,
    {
        let mut next: usize = 2;
        let n = self.chats.len();
        let mut i: usize = 0;
        while i < n
            invariant
                n == self.chats@.len(),
                forall|j: int|
                    0 <= j < n ==> (#[trigger] self.chats@[j].id) < usize::MAX,
                0 <= i <= n,
                next >= 2,
                forall|j: int| 0 <= j < i ==> next > (#[trigger] self.chats@[j].id),
            decreases n - i,
        {
            if self.chats[i].id >= next {
                next = self.chats[i].id + 1;
            }
            i += 1;
        }
        let model = self.settings.model.clone();
        self.chats.push(Chat::new(next, model));
    }

    /// Hands picked files to the conversation with the given identity: the
    /// first chat carrying it gets the files appended, in order; every other
    /// chat is untouched. Returns whether any chat carries the identity.
    pub fn add_files_to_chat(&mut self, id: usize, files: Vec<String>) -> (r: bool)
        ensures
            final(self).chats@.len() == old(self).chats@.len(),
            final(self).selected_chat == old(self).selected_chat,
            final(self).settings == old(self).settings,
            ({
                let k = first_chat_with_id(old(self).chats@, id as int);
                if k < old(self).chats@.len() {
                    &&& r == true
                    &&& final(self).chats@[k].files.deep_view() == old(
                        self,
                    ).chats@[k].files.deep_view() + files.deep_view()
                    &&& final(self).chats@[k].messages == old(self).chats@[k].messages
                    &&& final(self).chats@[k].id == old(self).chats@[k].id
                    &&& forall|j: int|
                        0 <= j < old(self).chats@.len() && j != k ==> final(self).chats@[j]
                            == old(self).chats@[j]
                } else {
                    r == false && final(self).chats@ == old(self).chats@
                }
            }),
    {
        let n = self.chats.len();
        let mut i: usize = 0;
        while i < n
            invariant
                n == self.chats@.len(),
                0 <= i <= n,
                self.chats@ == old(self).chats@,
                self.selected_chat == old(self).selected_chat,
                self.settings == old(self).settings,
                forall|j: int| 0 <= j < i ==> (#[trigger] self.chats@[j].id) != id,
            decreases n - i,
        {
            if self.chats[i].id == id {
                proof {
                    lemma_first_chat_with_id(self.chats@, id as int, i as int);
                }
                let ghost before = self.chats@[i as int].files.deep_view();
                let mut target = self.chats.remove(i);
                let mut files = files;
                let ghost added = files.deep_view();
                target.files.append(&mut files);
                proof {
                    assert(target.files.deep_view() =~~= before + added);
                }
                self.chats.insert(i, target);
                proof {
                    assert(self.chats@ =~= old(self).chats@.update(
                        i as int,
                        self.chats@[i as int],
                    ));
                }
                return true;
            }
            i += 1;
        }
        proof {
            lemma_first_chat_with_id(self.chats@, id as int, n as int);
        }
        false
    }

    /// Removes the conversation at `idx`. A store never goes empty: removing
    /// the last one leaves a fresh conversation in its place; and the
    /// selection is clamped back into range.
    pub fn remove_chat(&mut self, idx: usize)
        requires
            idx < old(self).chats@.len(),
            forall|j: int|
                0 <= j < old(self).chats@.len() ==> (#[trigger] old(self).chats@[j].id)
                    < usize::MAX,
        ensures
            final(self).chats@.len() >= 1,
            final(self).selected_chat < final(self).chats@.len(),
            old(self).chats@.len() > 1 ==> {
                &&& final(self).chats@ == old(self).chats@.remove(idx as int)
                &&& final(self).selected_chat == (if old(self).selected_chat < old(
                    self,
                ).chats@.len() - 1 {
                    old(self).selected_chat as int
                } else {
                    old(self).chats@.len() - 2
                })
            },
            old(self).chats@.len() == 1 ==> {
                &&& final(self).chats@.len() == 1
                &&& final(self).chats@[0].messages@.len() == 0
                &&& final(self).selected_chat == 0
            },
    {
        let _ = self.chats.remove(idx);
        if self.chats.len() == 0 {
            self.add_default_chat();
            self.selected_chat = 0;
        } else if self.selected_chat >= self.chats.len() {
            self.selected_chat = self.chats.len() - 1;
        }
    }
}

/// The index of the first conversation carrying the identity, or the length
/// when none does.
pub open spec fn first_chat_with_id(chats: Seq<Chat>, id: int) -> int
    decreases chats.len(),
{
    if chats.len() == 0 {
        0
    } else if chats[0].id == id {
        0
    } else {
        1 + first_chat_with_id(chats.drop_first(), id)
    }
}

/// When the first `i` conversations carry other identities, the first match
/// is at least `i`; it is exactly `i` when chat `i` carries the identity or
/// `i` is the end.
proof fn lemma_first_chat_with_id(chats: Seq<Chat>, id: int, i: int)
    requires
        0 <= i <= chats.len(),
        forall|j: int| 0 <= j < i ==> (#[trigger] chats[j].id) != id,
    ensures
        i <= first_chat_with_id(chats, id) <= chats.len(),
        i < chats.len() && chats[i].id == id ==> first_chat_with_id(chats, id) == i,
        i == chats.len() ==> first_chat_with_id(chats, id) == i,
    decreases chats.len(),
{
    if chats.len() == 0 {
    } else if chats[0].id == id {
        assert(i == 0);
    } else {
        let tail = chats.drop_first();
        if i == 0 {
            lemma_first_chat_with_id(tail, id, 0);
        } else {
            assert(forall|k: int| 0 <= k < i - 1 ==> (#[trigger] tail[k].id) != id) by {
                assert(forall|k: int| 0 <= k < i - 1 ==> (#[trigger] tail[k]) == chats[k + 1]);
            }
            lemma_first_chat_with_id(tail, id, i - 1);
            if i < chats.len() && chats[i].id == id {
                assert(tail[i - 1].id == id);
            }
        }
    }
}

} // verus!
