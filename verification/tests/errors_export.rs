use ellama::errnorm::{clean_error_text, normalize_error};
use ellama::export::{export_json, export_messages, export_plaintext, ChatExportFormat};
use ellama::import::import_json;
use ellama::media::{convert_media, MediaError};
use ellama::msg::{Message, Role};

fn message(role: Role, content: &str, time: u64, files: Vec<String>) -> Message {
    Message {
        role,
        content: content.to_string(),
        model: "gemini-2.5-flash".to_string(),
        time,
        files,
        is_generating: false,
        is_error: false,
        is_thought: false,
        is_prepending: false,
    }
}

#[test]
fn wrapped_json_error_is_pretty_printed() {
    let raw = "StatusNotOk(\"{\\\"a\\\":1}\")";
    assert_eq!(normalize_error(raw), "{\n  \"a\": 1\n}");
}

#[test]
fn non_json_payload_normalizes_to_the_unescaped_string_unchanged() {
    let raw = "StatusNotOk(\"line one\\nwith a \\\"quote\\\"\")";
    assert_eq!(normalize_error(raw), "line one\nwith a \"quote\"");
    // without the wrapper, the text only gets its escapes undone
    assert_eq!(normalize_error("plain failure"), "plain failure");
}

#[test]
fn cleaning_strips_the_wrapper_and_unescapes() {
    assert_eq!(clean_error_text("StatusNotOk(\"x\\ny\")"), "x\ny");
    assert_eq!(clean_error_text("no wrapper at all"), "no wrapper at all");
    assert_eq!(clean_error_text("a\\\"b"), "a\"b");
}

#[test]
fn json_round_trip_reproduces_the_identical_sequence() {
    let mut thought = message(Role::Assistant, "hidden \"reasoning\"\nwith lines", 7, Vec::new());
    thought.is_thought = true;
    let messages = vec![
        message(Role::User, "hi\tthere \\ backslash", 1, vec![
            "a/b.png".to_string(),
            "c d.txt".to_string(),
        ]),
        thought,
        message(Role::Assistant, "fine", 18446744073709551615, Vec::new()),
    ];
    let doc = export_json(&messages);
    let back = import_json(doc.as_str()).expect("an exported document decodes");
    assert_eq!(back.len(), messages.len());
    for (a, b) in messages.iter().zip(back.iter()) {
        assert_eq!(a.role, b.role);
        assert_eq!(a.content, b.content);
        assert_eq!(a.model, b.model);
        assert_eq!(a.time, b.time);
        assert_eq!(a.files, b.files);
        assert_eq!(a.is_generating, b.is_generating);
        assert_eq!(a.is_error, b.is_error);
        assert_eq!(a.is_thought, b.is_thought);
        assert_eq!(a.is_prepending, b.is_prepending);
    }
}

#[test]
fn an_empty_history_round_trips_too() {
    let messages: Vec<Message> = Vec::new();
    let doc = export_json(&messages);
    assert_eq!(doc, "[]");
    let back = import_json(doc.as_str()).expect("an empty document decodes");
    assert!(back.is_empty());
}

#[test]
fn exported_json_has_the_documented_shape() {
    let messages = vec![message(Role::User, "hey", 12, Vec::new())];
    let doc = export_json(&messages);
    assert_eq!(
        doc,
        "[{\"role\":\"user\",\"content\":\"hey\",\"model\":\"gemini-2.5-flash\",\"time\":12,\
         \"files\":[],\"is_generating\":false,\"is_error\":false,\"is_thought\":false,\
         \"is_prepending\":false}]"
    );
    // and it is a JSON document the ecosystem parser accepts
    let v: serde_json::Value = serde_json::from_str(&doc).expect("valid JSON");
    assert_eq!(v[0]["content"], serde_json::Value::String("hey".to_string()));
}

#[test]
fn control_characters_round_trip_and_stay_valid_json() {
    let messages = vec![message(Role::User, "a\u{8}b\u{1f}c\u{0}", 3, Vec::new())];
    let doc = export_json(&messages);
    // the document is standard JSON: the ecosystem parser reads the same content
    let v: serde_json::Value = serde_json::from_str(&doc).expect("valid JSON despite controls");
    assert_eq!(
        v[0]["content"],
        serde_json::Value::String("a\u{8}b\u{1f}c\u{0}".to_string())
    );
    // and the crate's own decoder reproduces it exactly
    let back = import_json(doc.as_str()).expect("an exported document decodes");
    assert_eq!(back[0].content, "a\u{8}b\u{1f}c\u{0}");
}

#[test]
fn images_in_other_formats_are_reencoded_as_png() {
    // a one-pixel image written as BMP, a format the backend refuses
    let mut bmp: Vec<u8> = Vec::new();
    let img = image::DynamicImage::ImageRgb8(image::RgbImage::new(1, 1));
    img.write_to(&mut std::io::Cursor::new(&mut bmp), image::ImageFormat::Bmp)
        .expect("a BMP encodes");
    let part = convert_media(&bmp, "image/bmp").expect("a decodable image re-encodes");
    assert_eq!(part.mime, "image/png");
    let png = base64::Engine::decode(&base64::engine::general_purpose::STANDARD, &part.data)
        .expect("the payload is base64");
    assert_eq!(&png[..4], &[0x89, b'P', b'N', b'G'], "the payload is a PNG document");

    // PNG bytes go through verbatim
    let again = convert_media(&png, "image/png").expect("png is accepted as is");
    assert_eq!(again.mime, "image/png");
    assert_eq!(
        again.data,
        base64::Engine::encode(&base64::engine::general_purpose::STANDARD, &png)
    );

    // an image format that is detected but does not decode is refused
    let broken = b"GIF89a not actually a gif".to_vec();
    assert!(matches!(
        convert_media(&broken, "image/gif"),
        Err(MediaError::UndecodableImage)
    ));
}

#[test]
fn a_foreign_role_or_oversized_timestamp_is_refused() {
    let bad_role = "[{\"role\":\"robot\",\"content\":\"x\",\"model\":\"m\",\"time\":1,                    \"files\":[],\"is_generating\":false,\"is_error\":false,                    \"is_thought\":false,\"is_prepending\":false}]";
    assert!(import_json(bad_role).is_none());
    let overflow = "[{\"role\":\"user\",\"content\":\"x\",\"model\":\"m\",                    \"time\":99999999999999999999999999,\"files\":[],                    \"is_generating\":false,\"is_error\":false,                    \"is_thought\":false,\"is_prepending\":false}]";
    assert!(import_json(overflow).is_none());
}

#[test]
fn trailing_garbage_is_refused() {
    let messages = vec![message(Role::User, "x", 0, Vec::new())];
    let mut doc = export_json(&messages);
    doc.push(' ');
    assert!(import_json(doc.as_str()).is_none());
    assert!(import_json("nonsense").is_none());
}

#[test]
fn plaintext_export_writes_one_line_per_message() {
    let messages = vec![
        message(Role::User, "ask", 0, Vec::new()),
        message(Role::Assistant, "answer", 42, Vec::new()),
    ];
    let text = export_plaintext(&messages);
    assert_eq!(
        text,
        "1970-01-01T00:00:00+00:00 - User (gemini-2.5-flash): ask\n\
         1970-01-01T00:00:00.042+00:00 - Assistant (gemini-2.5-flash): answer\n"
    );
}

#[test]
fn format_dispatch_and_extensions() {
    let messages = vec![message(Role::User, "x", 1, Vec::new())];
    assert!(export_messages(&messages, ChatExportFormat::Plaintext).is_some());
    assert!(export_messages(&messages, ChatExportFormat::Json).is_some());
    assert!(export_messages(&messages, ChatExportFormat::Ron).is_none());
    assert_eq!(ChatExportFormat::Plaintext.extensions(), &["txt"]);
    assert_eq!(ChatExportFormat::Json.extensions(), &["json"]);
    assert_eq!(ChatExportFormat::Ron.extensions(), &["ron"]);
    assert_eq!(ChatExportFormat::Json.label(), "Json");
    assert_eq!(ChatExportFormat::all().len(), 3);
}

#[test]
fn media_conversion_encodes_and_checks_the_mime_type() {
    // the reference base64 of "Man" is "TWFu"; an unchanged payload would fail
    let bytes = vec![b'M', b'a', b'n'];
    let part = convert_media(&bytes, "text/plain").expect("plain text is accepted");
    assert_eq!(part.mime, "text/plain");
    assert_eq!(part.data, "TWFu");

    let json = convert_media(&bytes, "application/json").expect("structured text is remapped");
    assert_eq!(json.mime, "text/plain");

    assert!(matches!(
        convert_media(&bytes, "application/zip"),
        Err(MediaError::UnsupportedMime)
    ));
}
