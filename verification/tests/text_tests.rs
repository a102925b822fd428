use ellama::make_short_name;
use ellama::message::{make_summary, Message, Role};
use ellama::picker::{LocalModel, MirostatKind, ModelPicker, SelectedModel};
use ellama::text::{is_blank_exec, str_eq, trim_end_exec, trim_start_exec};

#[test]
fn short_names_take_the_upper_cased_alphanumeric_run() {
    assert_eq!(make_short_name("nous-hermes2:latest"), "Nous");
    assert_eq!(make_short_name("gemma:latest"), "Gemma");
    assert_eq!(make_short_name("starling-lm:7b-beta-q5_K_M"), "Starling");
    assert_eq!(make_short_name("7b-chat"), "7b");
    assert_eq!(make_short_name(""), "Llama");
    assert_eq!(make_short_name(":odd"), "Llama");
}

#[test]
fn summaries_cut_at_the_first_line_break_or_the_length_bound() {
    assert_eq!(make_summary("hello"), "Hello");
    assert_eq!(make_summary("hello\nmore text"), "Hello");
    assert_eq!(make_summary(""), "");
    assert_eq!(
        make_summary("this prompt is far too long to show whole"),
        "This prompt is far too l\u{2026}"
    );
    // exactly at the bound there is nothing to cut
    assert_eq!(make_summary("123456789012345678901234"), "123456789012345678901234");
}

#[test]
fn trimming_and_blank_checks() {
    assert_eq!(trim_start_exec("  \t hi "), "hi ");
    assert_eq!(trim_end_exec(" hi \n\t"), " hi");
    assert!(is_blank_exec(" \t\r\n"));
    assert!(!is_blank_exec(" x "));
    assert!(str_eq("abc", "abc"));
    assert!(!str_eq("abc", "abd"));
    assert!(!str_eq("abc", "ab"));
}

#[test]
fn message_constructors_set_the_display_state() {
    let u = Message::user(String::from("q"), String::from("m"), vec![String::from("p.png")], 3);
    assert!(!u.is_generating && !u.is_error);
    assert_eq!(u.role, Role::User);
    assert_eq!(u.images, vec!["p.png"]);
    let a = Message::assistant(String::new(), String::from("m"), 3);
    assert!(a.is_generating && !a.is_error);
    assert_eq!(a.role, Role::Assistant);
    assert!(a.images.is_empty());
}

#[test]
fn picker_selection_and_info_matching() {
    let mut p = ModelPicker::new();
    assert!(!p.has_selection());
    let models = vec![
        LocalModel {
            name: String::from("a"),
            modified_at: String::from("not a date"),
            size: 5,
        },
        LocalModel {
            name: String::from("b"),
            modified_at: String::from("2024-06-01T10:00:00+00:00"),
            size: 9,
        },
    ];
    p.select_best_model(&models, 0);
    assert!(p.has_selection());
    assert_eq!(p.selected_model(), "b");
    assert_eq!(p.selected.size, 9);

    // an unparsable modification time renders as empty distance text
    let s = SelectedModel::from_model(&models[0], 0);
    assert_eq!(s.modified_ago, "");
}

#[test]
fn mirostat_kinds_have_wire_values_and_names() {
    assert_eq!(MirostatKind::Disabled.to_u8(), 0);
    assert_eq!(MirostatKind::Mirostat.to_u8(), 1);
    assert_eq!(MirostatKind::Mirostat2.to_u8(), 2);
    assert_eq!(MirostatKind::Disabled.name(), "Disabled");
    assert_eq!(MirostatKind::Mirostat.name(), "Mirostat");
    assert_eq!(MirostatKind::Mirostat2.name(), "Mirostat 2.0");
}
