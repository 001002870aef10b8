use ellama::backend::{response_events, to_backend_session};
use ellama::compact::{compact, MediaPart};
use ellama::demux::PartEvent;
use ellama::msg::{Message, Role};
use gemini_client_api::gemini::types::request::{PartType, Role as WireRole};
use gemini_client_api::gemini::types::response::GeminiResponse;

fn msg(role: Role, content: &str) -> Message {
    Message {
        role,
        content: content.to_string(),
        model: "m".to_string(),
        time: 0,
        files: Vec::new(),
        is_generating: false,
        is_error: false,
        is_thought: false,
        is_prepending: false,
    }
}

#[test]
fn the_wire_session_mirrors_the_compacted_turns() {
    let messages = vec![
        msg(Role::User, "ask"),
        msg(Role::Assistant, "reply"),
        msg(Role::User, "more"),
    ];
    let convs: Vec<Vec<Option<MediaPart>>> = vec![Vec::new(), Vec::new(), Vec::new()];
    let turns = compact(&messages, &convs, usize::MAX);
    assert_eq!(turns.len(), 3);
    let session = to_backend_session(&turns);
    assert_eq!(session.get_history_length(), 3);
    let history = session.get_history();
    assert_eq!(*history[0].role(), WireRole::User);
    assert_eq!(*history[1].role(), WireRole::Model);
    assert_eq!(*history[2].role(), WireRole::User);
    assert_eq!(history[0].get_text_all(""), "ask");
    assert_eq!(history[1].get_text_all(""), "reply");
}

#[test]
fn inline_media_reaches_the_wire_session() {
    let mut with_file = msg(Role::User, "see file");
    with_file.files = vec!["d/x.png".to_string()];
    let messages = vec![with_file];
    let convs = vec![vec![Some(MediaPart {
        mime: "image/png".to_string(),
        data: "QUJD".to_string(),
    })]];
    let turns = compact(&messages, &convs, usize::MAX);
    let session = to_backend_session(&turns);
    assert_eq!(session.get_history_length(), 1);
    let history = session.get_history();
    let parts = history[0].parts();
    assert_eq!(parts.len(), 3);
    assert!(matches!(parts[0].data(), PartType::Text(t) if t == "File with name: x.png"));
    assert!(matches!(parts[1].data(), PartType::InlineData(d) if d.data() == "QUJD"));
    assert!(matches!(parts[2].data(), PartType::Text(t) if t == "see file"));
}

#[test]
fn media_the_backend_refuses_is_dropped_at_the_wire() {
    let mut with_file = msg(Role::User, "data");
    with_file.files = vec!["d/x.bin".to_string()];
    let messages = vec![with_file];
    // a payload with a mime type outside the backend's allow-list
    let convs = vec![vec![Some(MediaPart {
        mime: "application/zip".to_string(),
        data: "QUJD".to_string(),
    })]];
    let turns = compact(&messages, &convs, usize::MAX);
    let session = to_backend_session(&turns);
    let history = session.get_history();
    let parts = history[0].parts();
    // the label and the text stay; the refused payload is dropped
    assert_eq!(parts.len(), 2);
    assert!(matches!(parts[0].data(), PartType::Text(t) if t == "File with name: x.bin"));
    assert!(matches!(parts[1].data(), PartType::Text(t) if t == "data"));
}

#[test]
fn response_parts_map_to_the_event_model() {
    let raw = "{\"candidates\":[{\"content\":{\"role\":\"model\",\"parts\":[\
               {\"text\":\"pondering\",\"thought\":true},\
               {\"text\":\"the answer\"},\
               {\"inlineData\":{\"mime_type\":\"image/png\",\"data\":\"QUJD\"}}]}}],\
               \"usageMetadata\":{},\"modelVersion\":\"test\"}";
    let response: GeminiResponse = serde_json::from_str(raw).expect("a valid response document");
    let events = response_events(&response);
    assert_eq!(events.len(), 3);
    assert!(matches!(&events[0], PartEvent::Text { thought: true, content } if content == "pondering"));
    assert!(matches!(&events[1], PartEvent::Text { thought: false, content } if content == "the answer"));
    assert!(matches!(&events[2], PartEvent::Binary { mime } if mime == "image/png"));
}
