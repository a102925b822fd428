use ellama::chat::{get_context_messages, Chat, DeliverError};
use ellama::message::Role;
use ellama::picker::{ModelPicker, SelectedModel};

fn picker_named(name: &str) -> ModelPicker {
    let mut p = ModelPicker::new();
    p.selected = SelectedModel {
        name: String::from(name),
        modified_ago: String::new(),
        modified_at: String::new(),
        size: 0,
    };
    p
}

#[test]
fn send_message_appends_user_and_placeholder_and_activates() {
    let mut chat = Chat::new(1, picker_named("llama"));
    chat.chatbox = String::from("hi there  ");
    let req = chat.send_message(1000).expect("a request should spawn");
    assert_eq!(chat.messages.len(), 2);
    assert_eq!(chat.messages[0].content, "hi there");
    assert_eq!(chat.messages[0].role, Role::User);
    assert_eq!(chat.messages[1].content, "");
    assert_eq!(chat.messages[1].role, Role::Assistant);
    assert!(chat.messages[1].is_generating);
    assert!(chat.flower_active());
    assert_eq!(chat.chatbox, "");
    assert_eq!(chat.summary, "Hi there");
    assert_eq!(req.index, 1);
    assert_eq!(req.model, "llama");
    assert_eq!(req.history.len(), 2);
    assert_eq!(req.history[0].content, "hi there");
}

#[test]
fn empty_chatbox_sends_nothing() {
    let mut chat = Chat::new(1, picker_named("llama"));
    assert!(chat.send_message(0).is_none());
    assert_eq!(chat.messages.len(), 0);
    assert!(!chat.flower_active());
}

#[test]
fn progress_accumulates_and_success_replaces() {
    let mut chat = Chat::new(1, picker_named("m"));
    chat.chatbox = String::from("question");
    let req = chat.send_message(5).unwrap();
    chat.deliver_progress(req.index, String::from("An")).unwrap();
    chat.deliver_progress(req.index, String::from("swer")).unwrap();
    let dialog = chat.poll_flower();
    assert!(dialog.is_none());
    assert_eq!(chat.messages[1].content, "Answer");
    assert!(chat.messages[1].is_generating);
    assert!(chat.flower_active());

    chat.deliver_success(req.index, String::from("Answer.")).unwrap();
    let dialog = chat.poll_flower();
    assert!(dialog.is_none());
    assert_eq!(chat.messages[1].content, "Answer.");
    assert!(!chat.messages[1].is_generating);
    assert!(!chat.flower_active());
}

#[test]
fn failure_flags_the_message_and_surfaces_a_dialog() {
    let mut chat = Chat::new(1, picker_named("m"));
    chat.chatbox = String::from("q");
    let req = chat.send_message(5).unwrap();
    chat.deliver_failure(req.index, String::from("connection refused"))
        .unwrap();
    let dialog = chat.poll_flower();
    assert_eq!(dialog.as_deref(), Some("connection refused"));
    assert!(chat.messages[1].is_error);
    assert!(!chat.messages[1].is_generating);
    assert_eq!(chat.messages[1].content, "connection refused");
    assert!(!chat.flower_active());
}

#[test]
fn fault_blames_the_newest_message() {
    let mut chat = Chat::new(1, picker_named("m"));
    chat.chatbox = String::from("q");
    chat.send_message(5).unwrap();
    chat.deliver_fault(String::from("task panicked")).unwrap();
    let dialog = chat.poll_flower();
    assert_eq!(dialog.as_deref(), Some("task panicked"));
    let last = chat.messages.last().unwrap();
    assert!(last.is_error);
    assert_eq!(last.content, "task panicked");
}

#[test]
fn stop_flag_is_false_immediately_after_resolution() {
    let mut chat = Chat::new(1, picker_named("m"));
    chat.chatbox = String::from("q");
    let req = chat.send_message(5).unwrap();
    chat.deliver_progress(req.index, String::from("par")).unwrap();
    chat.request_stop();
    // the task observes the stop and resolves with the partial text
    chat.deliver_success(req.index, String::from("par")).unwrap();
    chat.poll_flower();
    assert!(!chat.flower_active());
    // a fresh request must start with a lowered flag
    chat.chatbox = String::from("next");
    assert!(chat.send_message(6).is_some());
}

#[test]
fn retry_removes_the_pair_and_resubmits_the_user_text() {
    let mut chat = Chat::new(1, picker_named("m"));
    chat.chatbox = String::from("hi");
    let req = chat.send_message(5).unwrap();
    chat.deliver_failure(req.index, String::from("boom")).unwrap();
    chat.poll_flower();
    assert!(chat.messages[1].is_error);

    chat.request_retry(1);
    let req2 = chat.process_retry(9).expect("retry should resubmit");
    assert_eq!(chat.messages.len(), 2);
    assert_eq!(chat.messages[0].content, "hi");
    assert_eq!(chat.messages[0].role, Role::User);
    assert_eq!(chat.messages[1].role, Role::Assistant);
    assert!(chat.messages[1].is_generating);
    assert!(!chat.messages[0].is_error);
    assert!(!chat.messages[1].is_error);
    assert!(chat.flower_active());
    assert_eq!(req2.index, 1);
}

#[test]
fn regenerate_truncates_history_and_seeds_the_prefix() {
    let mut chat = Chat::new(1, picker_named("m"));
    chat.chatbox = String::from("hi");
    let req = chat.send_message(5).unwrap();
    chat.deliver_success(req.index, String::from("old answer")).unwrap();
    chat.poll_flower();

    chat.prepend_buf = String::from("Sure, ");
    let req2 = chat.regenerate_response(1);
    assert_eq!(req2.index, 1);
    assert_eq!(req2.history.len(), 2);
    assert_eq!(req2.history[0].content, "hi");
    assert_eq!(req2.history[1].role, Role::Assistant);
    assert_eq!(req2.history[1].content, "Sure, ");
    assert_eq!(chat.messages[1].content, "Sure, ");
    assert!(chat.messages[1].is_generating);
    assert_eq!(chat.prepend_buf, "");

    // the task started from this request resolves with the seed up front
    let mut task = ellama::task::StreamTask::new(&req2.history, req2.index);
    task.process_chunk("it works like this.");
    let (idx, text) = task.finish();
    assert_eq!(idx, 1);
    assert!(text.starts_with("Sure, "));
    assert_eq!(text, "Sure, it works like this.");
}

#[test]
fn last_message_contents_skips_empty_and_prefixes_user_turns() {
    let mut chat = Chat::new(1, picker_named("m"));
    assert!(chat.last_message_contents().is_none());
    chat.chatbox = String::from("hello");
    chat.send_message(5).unwrap();
    // the assistant placeholder is empty, so the user turn is previewed
    assert_eq!(chat.last_message_contents().as_deref(), Some("You: hello"));
}

#[test]
fn prepend_edit_replaces_content_without_regenerating() {
    let mut chat = Chat::new(1, picker_named("m"));
    chat.chatbox = String::from("hi");
    let req = chat.send_message(5).unwrap();
    chat.deliver_success(req.index, String::from("old")).unwrap();
    chat.poll_flower();

    chat.prepend_buf = String::from("edited");
    chat.apply_prepend_edit(1);
    assert_eq!(chat.messages[1].content, "edited");
    assert_eq!(chat.prepend_buf, "");
    assert!(!chat.flower_active());
}

#[test]
fn context_messages_mirror_the_message_list() {
    let mut chat = Chat::new(1, picker_named("m"));
    chat.images = vec![String::from("cat.png")];
    chat.chatbox = String::from("look");
    chat.send_message(5).unwrap();
    let wire = get_context_messages(&chat.messages);
    assert_eq!(wire.len(), 2);
    assert_eq!(wire[0].role, Role::User);
    assert_eq!(wire[0].content, "look");
    assert_eq!(wire[0].images, vec![String::from("cat.png")]);
    assert_eq!(wire[1].role, Role::Assistant);
    assert_eq!(wire[1].content, "");
}

#[test]
fn deliveries_out_of_protocol_are_rejected() {
    let mut chat = Chat::new(1, picker_named("m"));
    assert_eq!(
        chat.deliver_progress(0, String::from("x")),
        Err(DeliverError::NotActive)
    );
    chat.chatbox = String::from("q");
    chat.send_message(5).unwrap();
    assert_eq!(
        chat.deliver_progress(9, String::from("x")),
        Err(DeliverError::BadIndex)
    );
    chat.deliver_success(1, String::from("done")).unwrap();
    assert_eq!(
        chat.deliver_success(1, String::from("twice")),
        Err(DeliverError::AlreadyResolved)
    );
}
