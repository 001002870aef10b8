use ellama::compact::{compact, MediaPart, SessionPart};
use ellama::msg::{Message, Role};

fn msg(role: Role, content: &str, generating: bool, thought: bool) -> Message {
    Message {
        role,
        content: content.to_string(),
        model: "m".to_string(),
        time: 5,
        files: Vec::new(),
        is_generating: generating,
        is_error: false,
        is_thought: thought,
        is_prepending: false,
    }
}

fn no_conversions(messages: &[Message]) -> Vec<Vec<Option<MediaPart>>> {
    messages.iter().map(|m| m.files.iter().map(|_| None).collect()).collect()
}

fn text_of(p: &SessionPart) -> String {
    match p {
        SessionPart::Text(t) => t.clone(),
        SessionPart::Media(m) => format!("media:{}", m.mime),
    }
}

#[test]
fn adjacent_same_author_messages_merge_into_one_turn() {
    let messages = vec![
        msg(Role::User, "a", false, false),
        msg(Role::User, "b", false, false),
        msg(Role::Assistant, "c", false, false),
        msg(Role::User, "d", false, false),
    ];
    let convs = no_conversions(&messages);
    let turns = compact(&messages, &convs, usize::MAX);
    assert_eq!(turns.len(), 3);
    assert!(turns[0].user && !turns[1].user && turns[2].user);
    assert_eq!(turns[0].parts.len(), 2);
    assert_eq!(text_of(&turns[0].parts[0]), "a");
    assert_eq!(text_of(&turns[0].parts[1]), "b");
    // no two adjacent turns share an author
    for w in turns.windows(2) {
        assert_ne!(w[0].user, w[1].user);
    }
}

#[test]
fn thoughts_and_empty_messages_never_appear() {
    let messages = vec![
        msg(Role::User, "hello", false, false),
        msg(Role::Assistant, "secret reasoning", false, true),
        msg(Role::Assistant, "", false, false),
        msg(Role::Assistant, "answer", false, false),
    ];
    let convs = no_conversions(&messages);
    let turns = compact(&messages, &convs, usize::MAX);
    assert_eq!(turns.len(), 2);
    assert_eq!(turns[0].parts.len(), 1);
    assert_eq!(text_of(&turns[0].parts[0]), "hello");
    assert_eq!(turns[1].parts.len(), 1);
    assert_eq!(text_of(&turns[1].parts[0]), "answer");
}

#[test]
fn regenerating_truncates_the_stale_partial_answer() {
    let messages = vec![
        msg(Role::User, "q1", false, false),
        msg(Role::Assistant, "a1", false, false),
        msg(Role::User, "q2", false, false),
        msg(Role::Assistant, "stale partial", true, false),
        msg(Role::User, "never seen", false, false),
    ];
    let convs = no_conversions(&messages);
    let turns = compact(&messages, &convs, 3);
    // the transcript stops before index 3; index 3's own content seeds a
    // final assistant turn
    assert_eq!(turns.len(), 4);
    assert_eq!(text_of(&turns[2].parts[0]), "q2");
    assert!(!turns[3].user);
    assert_eq!(text_of(&turns[3].parts[0]), "stale partial");
    for t in &turns {
        for p in &t.parts {
            assert_ne!(text_of(p), "never seen");
        }
    }
}

#[test]
fn regeneration_seed_continues_a_final_assistant_turn() {
    // when the truncated transcript already ends in an assistant turn, the
    // draft extends that turn instead of opening an adjacent one
    let messages = vec![
        msg(Role::User, "q", false, false),
        msg(Role::Assistant, "kept answer", false, false),
        msg(Role::Assistant, "draft", true, false),
    ];
    let convs = no_conversions(&messages);
    let turns = compact(&messages, &convs, 2);
    assert_eq!(turns.len(), 2);
    assert!(!turns[1].user);
    assert_eq!(turns[1].parts.len(), 2);
    assert_eq!(text_of(&turns[1].parts[0]), "kept answer");
    assert_eq!(text_of(&turns[1].parts[1]), "draft");
    for w in turns.windows(2) {
        assert_ne!(w[0].user, w[1].user);
    }
}

#[test]
fn converted_attachments_carry_a_label_and_failures_are_dropped() {
    let mut m = msg(Role::User, "look", false, false);
    m.files = vec!["dir/photo.png".to_string(), "dir/broken.bin".to_string()];
    let messages = vec![m];
    let convs = vec![vec![
        Some(MediaPart { mime: "image/png".to_string(), data: "AAAA".to_string() }),
        None,
    ]];
    let turns = compact(&messages, &convs, usize::MAX);
    assert_eq!(turns.len(), 1);
    let parts = &turns[0].parts;
    assert_eq!(parts.len(), 3);
    assert_eq!(text_of(&parts[0]), "File with name: photo.png");
    assert_eq!(text_of(&parts[1]), "media:image/png");
    assert_eq!(text_of(&parts[2]), "look");
}

#[test]
fn a_message_whose_every_part_fails_conversion_opens_no_turn() {
    let mut failed = msg(Role::Assistant, "", false, false);
    failed.files = vec!["gone.bin".to_string()];
    let messages = vec![
        msg(Role::User, "a", false, false),
        failed,
        msg(Role::User, "b", false, false),
    ];
    let convs = no_conversions(&messages);
    let turns = compact(&messages, &convs, usize::MAX);
    // both user messages merge into one turn: the failed message
    // contributed nothing, so it does not break the group
    assert_eq!(turns.len(), 1);
    assert!(turns[0].user);
    assert_eq!(turns[0].parts.len(), 2);
}
