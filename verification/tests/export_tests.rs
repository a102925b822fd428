use ellama::export::{format_plaintext, parse_json, to_json, ChatExportFormat};
use ellama::message::{Message, Role};

fn msg(role: Role, content: &str, model: &str, time: i64, is_error: bool) -> Message {
    Message {
        content: String::from(content),
        role,
        model_name: String::from(model),
        is_generating: false,
        is_error,
        time,
        images: Vec::new(),
    }
}

fn assert_same_tuples(a: &[Message], b: &[Message]) {
    assert_eq!(a.len(), b.len());
    for (x, y) in a.iter().zip(b.iter()) {
        assert_eq!(x.role, y.role);
        assert_eq!(x.model_name, y.model_name);
        assert_eq!(x.content, y.content);
        assert_eq!(x.time, y.time);
        assert_eq!(x.is_error, y.is_error);
    }
}

#[test]
fn json_round_trip_preserves_the_message_tuples() {
    let messages = vec![
        msg(Role::User, "hello there", "llama", 1700000000, false),
        msg(Role::Assistant, "General reply.", "llama", 1700000042, false),
        msg(Role::Assistant, "connection refused", "llama", 1700000099, true),
    ];
    let json = to_json(&messages);
    let parsed = parse_json(&json).expect("own output must parse");
    assert_same_tuples(&messages, &parsed);
}

#[test]
fn json_round_trip_survives_escapes_and_negative_times() {
    let messages = vec![
        msg(Role::User, "line\nbreak\tand \"quotes\" \\ backslash", "m\"x", -12345, false),
        msg(Role::Assistant, "", "", 0, true),
        msg(Role::User, "control\u{1}char", "m", i64::MIN, false),
    ];
    let json = to_json(&messages);
    let parsed = parse_json(&json).expect("own output must parse");
    assert_same_tuples(&messages, &parsed);
}

#[test]
fn empty_list_round_trips() {
    let messages: Vec<Message> = Vec::new();
    let json = to_json(&messages);
    assert_eq!(json, "[]");
    let parsed = parse_json(&json).expect("empty array must parse");
    assert!(parsed.is_empty());
}

#[test]
fn exported_json_has_the_expected_shape() {
    let messages = vec![msg(Role::User, "hi", "llama", 7, false)];
    let json = to_json(&messages);
    assert_eq!(
        json,
        "[{\"role\":\"User\",\"model_name\":\"llama\",\"content\":\"hi\",\"time\":7,\"is_error\":false}]"
    );
}

#[test]
fn malformed_json_is_rejected() {
    assert!(parse_json("").is_none());
    assert!(parse_json("[").is_none());
    assert!(parse_json("{}").is_none());
    assert!(parse_json("[{\"role\":\"User\"}]").is_none());
    // trailing input after the array is rejected
    let json = to_json(&vec![msg(Role::User, "hi", "m", 0, false)]);
    let mut with_tail = json.clone();
    with_tail.push(' ');
    assert!(parse_json(&with_tail).is_none());
}

#[test]
fn plaintext_export_renders_one_line_per_message() {
    let messages = vec![
        msg(Role::User, "hi", "llama", 0, false),
        msg(Role::Assistant, "hello", "llama", 86400, false),
    ];
    let text = format_plaintext(&messages);
    let expected = "1970-01-01T00:00:00+00:00 - User (llama): hi\n\
                    1970-01-02T00:00:00+00:00 - Assistant (llama): hello\n";
    assert_eq!(text, expected);
}

#[test]
fn export_format_extensions_and_labels() {
    assert_eq!(ChatExportFormat::Plaintext.extensions(), &["txt"]);
    assert_eq!(ChatExportFormat::Json.extensions(), &["json"]);
    assert_eq!(ChatExportFormat::Ron.extensions(), &["ron"]);
    assert_eq!(ChatExportFormat::Json.label(), "Json");
    assert_eq!(ChatExportFormat::all().len(), 3);
}
