use ellama::channel::{ProgressChannel, TaskError};
use ellama::demux::{apply_events, apply_text_part, DemuxError, PartEvent};
use ellama::msg::{Message, Role};
use ellama::stream::StreamRun;

type Chan = ProgressChannel<(usize, PartEvent), (usize, String), (usize, String)>;

fn placeholder() -> Message {
    Message {
        role: Role::Assistant,
        content: String::new(),
        model: "m".to_string(),
        time: 9,
        files: Vec::new(),
        is_generating: true,
        is_error: false,
        is_thought: false,
        is_prepending: false,
    }
}

fn text_event(thought: bool, content: &str) -> PartEvent {
    PartEvent::Text { thought, content: content.to_string() }
}

#[test]
fn progress_events_are_delivered_in_send_order() {
    let mut ch: Chan = Chan::new(7);
    assert_eq!(ch.id(), 7);
    assert!(!ch.is_active());
    ch.activate();
    assert!(ch.is_active());
    ch.send((0, text_event(false, "a")));
    ch.send((0, text_event(false, "b")));
    ch.send((0, text_event(true, "c")));
    let drained = ch.extract();
    assert_eq!(drained.len(), 3);
    let texts: Vec<String> = drained
        .iter()
        .map(|(_, e)| match e {
            PartEvent::Text { content, .. } => content.clone(),
            PartEvent::Binary { .. } => String::new(),
        })
        .collect();
    assert_eq!(texts, vec!["a".to_string(), "b".to_string(), "c".to_string()]);
    assert!(ch.extract().is_empty());
}

#[test]
fn terminal_outcome_is_observed_once_and_frees_the_channel() {
    let mut ch: Chan = Chan::new(1);
    ch.activate();
    assert!(ch.finalize().is_none());
    assert!(ch.is_active());
    ch.success((0, "full".to_string()));
    let t = ch.finalize();
    assert!(matches!(t, Some(Ok((0, s))) if s == "full"));
    assert!(!ch.is_active());
    assert!(ch.finalize().is_none());
}

#[test]
fn domain_error_and_panic_are_distinguished() {
    let mut ch: Chan = Chan::new(1);
    ch.activate();
    ch.error((2, "boom".to_string()));
    assert!(matches!(ch.finalize(), Some(Err(TaskError::Domain((2, e)))) if e == "boom"));
    ch.activate();
    ch.panicked("task aborted".to_string());
    assert!(matches!(ch.finalize(), Some(Err(TaskError::Panicked(e))) if e == "task aborted"));
}

#[test]
fn thought_then_answer_yields_two_messages() {
    // chunks [thought("a"), thought("b"), answer("c")] against a pending
    // placeholder
    let mut messages = vec![placeholder()];
    apply_text_part(&mut messages, true, "a", 10);
    apply_text_part(&mut messages, true, "b", 10);
    apply_text_part(&mut messages, false, "c", 10);
    assert_eq!(messages.len(), 2);
    assert!(messages[0].is_thought);
    assert_eq!(messages[0].content, "ab");
    assert!(!messages[0].is_generating);
    assert!(!messages[1].is_thought);
    assert_eq!(messages[1].content, "c");
    assert!(messages[1].is_generating);
}

#[test]
fn chunks_without_thoughts_yield_one_concatenated_message() {
    let mut messages = vec![placeholder()];
    let events = vec![
        text_event(false, "one "),
        text_event(false, "two "),
        text_event(false, "three"),
    ];
    let r = apply_events(&mut messages, &events, 10);
    assert!(r.is_ok());
    assert_eq!(messages.len(), 1);
    assert_eq!(messages[0].content, "one two three");
}

#[test]
fn a_binary_part_is_surfaced_not_dropped() {
    let mut messages = vec![placeholder()];
    let events = vec![
        text_event(false, "ok"),
        PartEvent::Binary { mime: "image/png".to_string() },
        text_event(false, "never applied"),
    ];
    let r = apply_events(&mut messages, &events, 10);
    assert_eq!(r, Err(DemuxError::UnsupportedPart));
    assert_eq!(messages[0].content, "ok");
}

#[test]
fn cancellation_stops_the_stream_and_clears_the_flag() {
    let mut run = StreamRun::new(3);
    let mut stop = false;
    let chunk = vec![text_event(false, "hello ")];
    let sent = run.on_chunk(&mut stop, &chunk);
    assert_eq!(sent.len(), 1);
    assert_eq!(run.acc, "hello ");

    // the user clicks stop between two chunks
    stop = true;
    let chunk2 = vec![text_event(false, "world")];
    let sent2 = run.on_chunk(&mut stop, &chunk2);
    assert!(sent2.is_empty());
    assert!(!stop, "the flag reads false again after the task observes it");
    assert!(run.cancelled && run.done);
    assert_eq!(run.acc, "hello ", "no progress after the chunk boundary");
}

#[test]
fn an_exhausted_run_finishes_with_the_accumulated_text() {
    let mut run = StreamRun::new(4);
    let mut stop = false;
    let sent = run.on_chunk(&mut stop, &vec![text_event(true, "think "), text_event(
        false,
        "answer",
    )]);
    assert_eq!(sent.len(), 2);
    assert_eq!(sent[0].0, 4);
    // the batch payload carries the full text...
    let (idx, full) = run.finish();
    assert_eq!(idx, 4);
    assert_eq!(full, "think answer");
}

#[test]
fn a_streaming_run_finishes_with_an_empty_placeholder() {
    let mut run = StreamRun::new(6);
    let mut stop = false;
    run.on_chunk(&mut stop, &vec![text_event(false, "already delivered")]);
    // ...while the streaming payload is an empty placeholder, since the
    // content was already delivered incrementally
    let (idx, placeholder) = run.finish_streaming();
    assert_eq!(idx, 6);
    assert!(placeholder.is_empty());
}
