use ellama::channel::Terminal;
use ellama::picker::{LocalModel, ModelInfo};
use ellama::sessions::{ModelInfoRequest, OllamaResponse, Sessions, Toast, ToastKind};

fn model(name: &str, size: u64) -> LocalModel {
    LocalModel {
        name: String::from(name),
        modified_at: String::from("2024-01-01T00:00:00+00:00"),
        size,
    }
}

#[test]
fn concurrent_sessions_do_not_observe_each_others_progress() {
    let mut s = Sessions::new();
    s.add_default_chat();
    assert_eq!(s.chats.len(), 2);

    s.chats[0].chatbox = String::from("first question");
    let r0 = s.chats[0].send_message(1).unwrap();
    s.chats[1].chatbox = String::from("second question");
    let r1 = s.chats[1].send_message(2).unwrap();

    s.chats[0].deliver_progress(r0.index, String::from("alpha")).unwrap();
    s.chats[1].deliver_progress(r1.index, String::from("beta")).unwrap();

    let (dialogs, any_active) = s.poll_all_chats();
    assert!(dialogs.is_empty());
    assert!(any_active);
    assert_eq!(s.chats[0].messages[r0.index].content, "alpha");
    assert_eq!(s.chats[1].messages[r1.index].content, "beta");
    assert!(!s.chats[0].messages[r0.index].content.contains("beta"));
    assert!(!s.chats[1].messages[r1.index].content.contains("alpha"));
}

#[test]
fn session_ids_grow_and_are_never_reused() {
    let mut s = Sessions::new();
    let first_id = s.chats[0].id();
    s.add_default_chat();
    let second_id = s.chats[1].id();
    assert!(second_id > first_id);
    s.remove_chat(1);
    s.add_default_chat();
    let third_id = s.chats[1].id();
    assert!(third_id > second_id);
}

#[test]
fn removing_the_last_chat_replaces_it_with_a_fresh_one() {
    let mut s = Sessions::new();
    s.chats[0].chatbox = String::from("hello");
    s.chats[0].send_message(0).unwrap();
    s.remove_chat(0);
    assert_eq!(s.chats.len(), 1);
    assert!(s.chats[0].messages.is_empty());
    assert_eq!(s.selected_chat, 0);
}

#[test]
fn model_list_selects_the_best_model_and_propagates() {
    let mut s = Sessions::new();
    s.add_default_chat();
    assert!(s.list_models());
    assert!(s.is_loading_models());
    s.deliver_maintenance(Terminal::Success(OllamaResponse::Models(vec![
        model("small", 10),
        model("big", 100),
        model("big-twin", 100),
    ])))
    .unwrap();
    let dialog = s.poll_ollama_flower(1704067200 + 86400);
    assert!(dialog.is_none());
    assert!(!s.is_loading_models());
    assert_eq!(s.models.len(), 3);
    // the largest model wins; ties break towards the last listed
    assert_eq!(s.settings.model_picker.selected.name, "big-twin");
    assert_eq!(s.chats[0].model_picker.selected.name, "big-twin");
    assert_eq!(s.chats[1].model_picker.selected.name, "big-twin");
    // the modification distance is rendered from the supplied clock
    assert_eq!(s.settings.model_picker.selected.modified_ago, "1 day ago");
}

#[test]
fn model_info_reaches_only_the_picker_that_selected_it() {
    let mut s = Sessions::new();
    s.add_default_chat();
    assert!(s.list_models());
    s.deliver_maintenance(Terminal::Success(OllamaResponse::Models(vec![model("m", 1)])))
        .unwrap();
    s.poll_ollama_flower(0);
    // both chats selected "m"; hand one of them a different selection
    s.chats[1].model_picker.selected.name = String::from("other");

    match s.request_model_info("m") {
        ModelInfoRequest::Spawn => {}
        r => panic!("expected a fetch, got {:?}", r),
    }
    let info = ModelInfo {
        license: String::from("MIT"),
        modelfile: String::from("FROM m"),
        parameters: String::from("7B"),
        template: String::from("{{ .Prompt }}"),
    };
    s.deliver_maintenance(Terminal::Success(OllamaResponse::ModelInfo {
        name: String::from("m"),
        info,
    }))
    .unwrap();
    s.poll_ollama_flower(0);
    assert!(s.chats[0].model_picker.info.is_some());
    assert!(s.chats[1].model_picker.info.is_none());
    assert!(s.settings.model_picker.info.is_some());

    // a second ask is answered from the session cache without a fetch
    match s.request_model_info("m") {
        ModelInfoRequest::Cached => {}
        r => panic!("expected a cached answer, got {:?}", r),
    }
    let dialog = s.poll_ollama_flower(0);
    assert!(dialog.is_none());
}

#[test]
fn chat_selection_is_inherited_into_the_defaults_when_configured() {
    let mut s = Sessions::new();
    s.chats[0].model_picker.selected.name = String::from("chat-model");
    assert!(s.settings.inherit_chat_picker);
    s.inherit_from_chat(0);
    assert_eq!(s.settings.model_picker.selected.name, "chat-model");

    s.settings.inherit_chat_picker = false;
    s.chats[0].model_picker.selected.name = String::from("other");
    s.inherit_from_chat(0);
    assert_eq!(s.settings.model_picker.selected.name, "chat-model");
}

#[test]
fn maintenance_failures_surface_a_dialog_and_leave_state_alone() {
    let mut s = Sessions::new();
    assert!(s.list_models());
    s.deliver_maintenance(Terminal::Failure(String::from("server down"))).unwrap();
    let dialog = s.poll_ollama_flower(0);
    assert_eq!(dialog.as_deref(), Some("server down"));
    assert!(s.models.is_empty());
    assert!(!s.flower.is_active());
}

#[test]
fn toasts_queue_and_images_reach_their_session() {
    let mut s = Sessions::new();
    let id = s.chats[0].id();
    assert!(s.list_models());
    s.deliver_maintenance(Terminal::Success(OllamaResponse::Toast(Toast {
        kind: ToastKind::Info,
        text: String::from("saved"),
    })))
    .unwrap();
    s.poll_ollama_flower(0);
    assert_eq!(s.toasts.len(), 1);
    assert_eq!(s.toasts[0].kind, ToastKind::Info);

    assert!(s.list_models());
    s.deliver_maintenance(Terminal::Success(OllamaResponse::Images {
        id,
        files: vec![String::from("a.png"), String::from("b.png")],
    }))
    .unwrap();
    s.poll_ollama_flower(0);
    assert_eq!(s.chats[0].images, vec!["a.png", "b.png"]);
}
