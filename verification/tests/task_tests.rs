use ellama::message::Role;
use ellama::task::{StreamTask, WireMessage};

fn history_with_last(role: Role, content: &str) -> Vec<WireMessage> {
    vec![
        WireMessage {
            role: Role::User,
            content: String::from("hi"),
            images: Vec::new(),
        },
        WireMessage {
            role,
            content: String::from(content),
            images: Vec::new(),
        },
    ]
}

#[test]
fn leading_whitespace_chunks_are_suppressed() {
    let history = history_with_last(Role::Assistant, "");
    let mut task = StreamTask::new(&history, 1);
    assert_eq!(task.process_chunk("   "), None);
    assert_eq!(task.process_chunk("  Hello").as_deref(), Some("Hello"));
    assert_eq!(task.process_chunk(" world").as_deref(), Some(" world"));
    let (idx, text) = task.finish();
    assert_eq!(idx, 1);
    assert_eq!(text, "Hello world");
}

#[test]
fn cancellation_after_n_chunks_resolves_with_trimmed_concatenation() {
    let history = history_with_last(Role::Assistant, "");
    let mut task = StreamTask::new(&history, 1);
    let mut forwarded = String::new();
    for chunk in ["Once", " upon", " a time  "] {
        if let Some(f) = task.process_chunk(chunk) {
            forwarded += &f;
        }
    }
    // the stop is observed here; the task resolves with what was forwarded
    let (_, text) = task.finish();
    assert_eq!(text, forwarded.trim_end());
    assert_eq!(text, "Once upon a time");
}

#[test]
fn cancellation_with_nothing_forwarded_resolves_with_the_empty_marker() {
    let history = history_with_last(Role::User, "hi");
    let mut task = StreamTask::new(&history, 1);
    assert_eq!(task.process_chunk("\n\n"), None);
    assert_eq!(task.process_chunk(" \t "), None);
    let (_, text) = task.finish();
    assert_eq!(text, "(empty response)");
}

#[test]
fn captured_prefix_survives_at_the_front_of_the_response() {
    let history = history_with_last(Role::Assistant, "Sure, ");
    let mut task = StreamTask::new(&history, 1);
    task.process_chunk("here is");
    task.process_chunk(" the answer.");
    let (_, text) = task.finish();
    assert!(text.starts_with("Sure, "));
    assert_eq!(text, "Sure, here is the answer.");
}

#[test]
fn history_ending_in_user_turn_has_no_prefix() {
    let history = history_with_last(Role::User, "prompt");
    let mut task = StreamTask::new(&history, 1);
    task.process_chunk("answer");
    let (_, text) = task.finish();
    assert_eq!(text, "answer");
}
