use ellama::channel::TaskError;
use ellama::chat::{make_short_name, make_summary, Chat, Dispatch, Settings};
use ellama::chat::{clone_messages, fold_thoughts};
use ellama::msg::{Message, Role};
use ellama::sessions::Sessions;

fn chat_with_prompt(prompt: &str) -> Chat {
    let mut chat = Chat::new(5, "m".to_string());
    chat.chatbox = prompt.to_string();
    chat
}

fn error_message(content: &str) -> Message {
    Message {
        role: Role::Assistant,
        content: content.to_string(),
        model: "m".to_string(),
        time: 0,
        files: Vec::new(),
        is_generating: false,
        is_error: true,
        is_thought: false,
        is_prepending: false,
    }
}

#[test]
fn sending_appends_prompt_and_placeholder_and_clears_the_composer() {
    let mut chat = chat_with_prompt("hello there  \n");
    chat.files.push("pic.png".to_string());
    let dispatched = chat.send_message(77);
    assert!(dispatched);
    assert_eq!(chat.messages.len(), 2);
    assert_eq!(chat.messages[0].content, "hello there");
    assert_eq!(chat.messages[0].files, vec!["pic.png".to_string()]);
    assert!(matches!(chat.messages[0].role, Role::User));
    assert!(matches!(chat.messages[1].role, Role::Assistant));
    assert!(chat.messages[1].is_generating);
    assert_eq!(chat.messages[1].content, "");
    assert!(chat.chatbox.is_empty());
    assert!(chat.files.is_empty());
    assert_eq!(chat.summary, "Hello there");
}

#[test]
fn an_empty_composer_sends_nothing() {
    let mut chat = Chat::new(1, "m".to_string());
    assert!(!chat.send_message(0));
    assert!(chat.messages.is_empty());
}

#[test]
fn sending_drops_old_error_messages() {
    let mut chat = chat_with_prompt("retry me");
    chat.messages.push(error_message("went wrong"));
    chat.send_message(1);
    assert_eq!(chat.messages.len(), 2);
    assert!(!chat.messages.iter().any(|m| m.is_error));
}

#[test]
fn retry_removes_the_pair_and_resends_their_content() {
    let mut chat = chat_with_prompt("first question");
    chat.send_message(1);
    // the task failed: the placeholder at index 1 turned into an error
    chat.messages[1] = error_message("boom");
    chat.request_retry(1);
    let idx = chat.take_retry().expect("a pending retry");
    assert!(chat.take_retry().is_none());
    let dispatched = chat.retry(idx, 2);
    assert!(dispatched);
    // exactly messages 1 and 0 were removed and one fresh pair appended
    assert_eq!(chat.messages.len(), 2);
    assert_eq!(chat.messages[0].content, "first question");
    assert!(matches!(chat.messages[0].role, Role::User));
    assert!(chat.messages[1].is_generating);
}

#[test]
fn only_one_message_is_in_prepend_mode_at_a_time() {
    let mut chat = chat_with_prompt("q");
    chat.send_message(1);
    chat.begin_prepend(0);
    assert!(chat.messages[0].is_prepending);
    chat.begin_prepend(1);
    assert!(!chat.messages[0].is_prepending);
    assert!(chat.messages[1].is_prepending);
}

#[test]
fn confirming_a_regeneration_seeds_the_slot_with_the_draft() {
    let mut chat = chat_with_prompt("q");
    chat.send_message(1);
    chat.begin_prepend(1);
    chat.prepend_buf = "continue from here".to_string();
    chat.confirm_regenerate(1);
    assert_eq!(chat.messages[1].content, "continue from here");
    assert!(chat.messages[1].is_generating);
    assert!(!chat.messages[1].is_prepending);
    assert!(chat.prepend_buf.is_empty());
}

#[test]
fn an_edit_without_regeneration_only_replaces_content() {
    let mut chat = chat_with_prompt("q");
    chat.send_message(1);
    chat.begin_prepend(1);
    chat.prepend_buf = "fixed text".to_string();
    chat.confirm_edit(1);
    assert_eq!(chat.messages[1].content, "fixed text");
    assert!(!chat.messages[1].is_prepending);
}

#[test]
fn cancelling_a_prepend_edit_keeps_the_content() {
    let mut chat = chat_with_prompt("q");
    chat.send_message(1);
    chat.messages[1].content = "original".to_string();
    chat.begin_prepend(1);
    chat.prepend_buf = "draft".to_string();
    chat.cancel_prepend(1);
    assert_eq!(chat.messages[1].content, "original");
    assert!(!chat.messages[1].is_prepending);
    assert!(chat.prepend_buf.is_empty());
}

#[test]
fn send_text_behaves_like_a_typed_prompt() {
    let mut chat = Chat::new(9, "m".to_string());
    assert!(chat.send_text("Tell me a joke about crabs", 3));
    assert_eq!(chat.messages.len(), 2);
    assert_eq!(chat.messages[0].content, "Tell me a joke about crabs");
    assert!(!chat.send_text("", 3));
}

#[test]
fn dispatch_without_credential_fails_before_the_backend() {
    let mut chat = chat_with_prompt("q");
    chat.send_message(1);
    let mut settings = Settings::default();
    assert!(matches!(chat.prepare_dispatch(&settings), Dispatch::MissingKey { index: 1 }));
    settings.api_key = "SECRET-REDACTED".to_string();
    settings.use_streaming = true;
    assert!(matches!(
        chat.prepare_dispatch(&settings),
        Dispatch::Run { index: 1, streaming: true }
    ));
}

#[test]
fn a_confirmed_regeneration_dispatches_at_its_own_slot() {
    let mut chat = chat_with_prompt("q1");
    chat.send_message(1);
    chat.messages[1].content = "a1".to_string();
    chat.messages[1].is_generating = false;
    chat.chatbox = "q2".to_string();
    chat.send_message(2);
    // regenerate the first answer, at index 1, not the last message
    chat.begin_prepend(1);
    chat.prepend_buf = "draft".to_string();
    chat.confirm_regenerate(1);
    let mut settings = Settings::default();
    settings.api_key = "SECRET-REDACTED".to_string();
    assert!(matches!(
        chat.prepare_regenerate_dispatch(&settings, 1),
        Dispatch::Run { index: 1, .. }
    ));
    settings.api_key = String::new();
    assert!(matches!(
        chat.prepare_regenerate_dispatch(&settings, 1),
        Dispatch::MissingKey { index: 1 }
    ));
}

#[test]
fn retry_leaves_the_composer_and_pending_index_clean() {
    let mut chat = chat_with_prompt("ask me");
    chat.send_message(1);
    chat.messages[1] = error_message("boom");
    chat.request_retry(1);
    let idx = chat.take_retry().expect("a pending retry");
    assert!(chat.retry(idx, 2));
    assert!(chat.chatbox.is_empty());
    assert!(chat.files.is_empty());
    assert!(chat.retry_message_idx.is_none());
    assert!(chat.prepend_buf.is_empty());
}

#[test]
fn a_domain_error_lands_in_its_slot_normalized() {
    let mut chat = chat_with_prompt("q");
    chat.send_message(1);
    let shown = chat.apply_terminal(Err(TaskError::Domain((1, "StatusNotOk(\"{\\\"a\\\":1}\")"
        .to_string()))));
    assert_eq!(shown.as_deref(), Some("{\n  \"a\": 1\n}"));
    assert!(chat.messages[1].is_error);
    assert!(!chat.messages[1].is_generating);
    assert_eq!(chat.messages[1].content, "{\n  \"a\": 1\n}");
}

#[test]
fn a_stale_index_falls_back_to_the_last_message_and_success_stops_the_spinner() {
    let mut chat = chat_with_prompt("q");
    chat.send_message(1);
    let shown = chat.apply_terminal(Err(TaskError::Domain((99, "gone".to_string()))));
    assert!(shown.is_some());
    assert!(chat.messages[1].is_error);

    let mut chat2 = chat_with_prompt("q");
    chat2.send_message(1);
    assert!(chat2.messages[1].is_generating);
    let shown2 = chat2.apply_terminal(Ok((1, "full text".to_string())));
    assert!(shown2.is_none());
    assert!(!chat2.messages[1].is_generating);
}

#[test]
fn a_panicked_task_is_described_distinctly() {
    let mut chat = chat_with_prompt("q");
    chat.send_message(1);
    let shown = chat.apply_terminal(Err(TaskError::Panicked("stack overflow".to_string())));
    assert_eq!(shown.as_deref(), Some("Tokio task panicked: stack overflow"));
    assert!(chat.messages[1].is_error);
}

#[test]
fn summaries_cap_at_the_limit_with_an_ellipsis() {
    assert_eq!(make_summary("short prompt"), "Short prompt");
    assert_eq!(make_summary("first line\nsecond line"), "First line");
    assert_eq!(make_summary(""), "");
    assert_eq!(
        make_summary("abcdefghijklmnopqrstuvwxyz"),
        "Abcdefghijklmnopqrstuvwx\u{2026}"
    );
    // exactly at the limit: no ellipsis
    assert_eq!(make_summary("abcdefghijklmnopqrstuvwx"), "Abcdefghijklmnopqrstuvwx");
    assert_eq!(make_short_name("gemini-2.5-flash"), "Gemini");
}

#[test]
fn last_message_contents_prefixes_the_user() {
    let mut chat = chat_with_prompt("question");
    chat.send_message(1);
    // the placeholder is empty, so the user message shows
    assert_eq!(chat.last_message_contents().as_deref(), Some("You: question"));
    chat.messages[1].content = "reply".to_string();
    assert_eq!(chat.last_message_contents().as_deref(), Some("reply"));
    let empty = Chat::new(2, "m".to_string());
    assert!(empty.last_message_contents().is_none());
}

#[test]
fn folding_thoughts_frames_them_as_ordinary_context() {
    let mut chat = chat_with_prompt("q");
    chat.send_message(1);
    chat.messages[1].is_thought = true;
    chat.messages[1].content = "inner".to_string();
    let mut snapshot = clone_messages(&chat.messages);
    fold_thoughts(&mut snapshot);
    assert!(!snapshot[1].is_thought);
    assert_eq!(
        snapshot[1].content,
        "MY INNER REFLECTIONS: inner--- end of inner reflections ---\\r\\n"
    );
    // the live history is untouched
    assert!(chat.messages[1].is_thought);
}

#[test]
fn picked_files_are_routed_to_the_chat_with_the_identity() {
    let mut sessions = Sessions::new();
    sessions.add_default_chat();
    let id0 = sessions.chats[0].id();
    let id1 = sessions.chats[1].id();
    assert!(sessions.add_files_to_chat(id1, vec!["a.png".to_string(), "b.txt".to_string()]));
    assert!(sessions.chats[1].files == vec!["a.png".to_string(), "b.txt".to_string()]);
    assert!(sessions.chats[0].files.is_empty());
    assert!(sessions.add_files_to_chat(id0, vec!["c.pdf".to_string()]));
    assert_eq!(sessions.chats[0].files, vec!["c.pdf".to_string()]);
    // an identity no live chat carries routes nowhere
    assert!(!sessions.add_files_to_chat(987654, vec!["d.txt".to_string()]));
}

#[test]
fn removing_chats_keeps_the_store_usable() {
    let mut sessions = Sessions::new();
    assert_eq!(sessions.chats.len(), 1);
    assert_eq!(sessions.chats[0].id(), 1);
    sessions.add_default_chat();
    sessions.add_default_chat();
    assert_eq!(sessions.chats.len(), 3);
    assert_ne!(sessions.chats[1].id(), sessions.chats[2].id());
    sessions.selected_chat = 2;
    sessions.remove_chat(2);
    assert_eq!(sessions.chats.len(), 2);
    assert_eq!(sessions.selected_chat, 1);
    sessions.remove_chat(0);
    sessions.remove_chat(0);
    // the last removal replaced the store with a fresh conversation
    assert_eq!(sessions.chats.len(), 1);
    assert!(sessions.chats[0].messages.is_empty());
    assert_eq!(sessions.selected_chat, 0);
    assert_eq!(sessions.model_picker(), &sessions.settings.model);
}
