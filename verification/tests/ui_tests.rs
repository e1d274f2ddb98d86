use codex_web::ops::ReasoningEffort;
use codex_web::popup::MAX_POPUP_ROWS;
use codex_web::popup::ModelPreset;
use codex_web::popup::ModelSearchPopup;
use codex_web::popup::row_label;
use codex_web::summary::CodexStatus;
use codex_web::summary::Event;
use codex_web::summary::EventMsg;
use codex_web::summary::EventProcessorWithJsonOutput;
use codex_web::summary::OutputAction;
use codex_web::text_input::KeyCode;
use codex_web::text_input::KeyEvent;
use codex_web::text_input::TextInputView;

fn bytes(s: &str) -> Vec<u8> {
    s.as_bytes().to_vec()
}

fn preset(model: &str, effort: ReasoningEffort) -> ModelPreset {
    ModelPreset {
        model: bytes(model),
        effort,
        description: bytes("d"),
    }
}

fn presets() -> Vec<ModelPreset> {
    vec![
        preset("gpt-5", ReasoningEffort::Low),
        preset("gpt-5", ReasoningEffort::High),
        preset("gpt-4", ReasoningEffort::Medium),
        preset("o3", ReasoningEffort::Minimal),
    ]
}

#[test]
fn popup_filters_and_sorts() {
    let ps = presets();
    assert!(ModelSearchPopup::has_matches(&ps, b"GpT"));
    assert!(ModelSearchPopup::has_matches(&ps, b"o3"));
    assert!(!ModelSearchPopup::has_matches(&ps, b""));
    assert!(!ModelSearchPopup::has_matches(&ps, b"mistral"));

    let mut popup = ModelSearchPopup::new();
    popup.set_query(&ps, b"gpt");
    // first row is selected once matches exist
    assert_eq!(
        popup.selected_display_string().unwrap(),
        bytes("@gpt-4-medium")
    );
    popup.move_down();
    // ties on the model sort by effort, high before low
    assert_eq!(
        popup.selected_display_string().unwrap(),
        bytes("@gpt-5-high")
    );
    popup.move_down();
    assert_eq!(popup.selected_display_string().unwrap(), bytes("@gpt-5-low"));
    // wrap around
    popup.move_down();
    assert_eq!(
        popup.selected_display_string().unwrap(),
        bytes("@gpt-4-medium")
    );
    popup.move_up();
    assert_eq!(popup.selected_display_string().unwrap(), bytes("@gpt-5-low"));
    assert_eq!(popup.calculate_required_height(), 3);
}

#[test]
fn popup_height_is_clamped() {
    let mut popup = ModelSearchPopup::new();
    popup.set_query(&presets(), b"zzz");
    assert_eq!(popup.calculate_required_height(), 1);
    assert!(popup.selected_display_string().is_none());

    let many: Vec<ModelPreset> = (0..20)
        .map(|i| preset(&format!("gpt-model-{i:02}"), ReasoningEffort::Medium))
        .collect();
    let mut popup = ModelSearchPopup::new();
    popup.set_query(&many, b"gpt");
    assert_eq!(popup.calculate_required_height() as usize, MAX_POPUP_ROWS);
}

#[test]
fn popup_rows_carry_labels_and_descriptions() {
    let mut popup = ModelSearchPopup::new();
    popup.set_query(&presets(), b"o3");
    assert_eq!(popup.scroll_top(), 0);
    assert_eq!(popup.selected_index(), Some(0));
    let rows = popup.rows();
    assert_eq!(rows.len(), 1);
    assert_eq!(rows[0].0, bytes("@o3-minimal"));
    assert_eq!(rows[0].1, bytes("d"));
}

#[test]
fn row_labels_name_model_and_effort() {
    assert_eq!(
        row_label(&preset("gpt-5", ReasoningEffort::Minimal)),
        bytes("@gpt-5-minimal")
    );
}

#[test]
fn text_input_edits_and_accepts() {
    let mut view = TextInputView::new(
        String::from("Title"),
        None,
        Some(String::from("hint")),
        vec!['a'],
    );
    assert!(!view.is_complete());
    assert_eq!(view.desired_height(80), 4);
    let none = view.handle_key_event(KeyEvent {
        code: KeyCode::Char('b'),
        ctrl: false,
        alt: false,
    });
    assert!(none.is_none());
    // control- and alt-modified characters are ignored
    view.handle_key_event(KeyEvent {
        code: KeyCode::Char('x'),
        ctrl: true,
        alt: false,
    });
    view.handle_key_event(KeyEvent {
        code: KeyCode::Char('c'),
        ctrl: false,
        alt: false,
    });
    view.handle_key_event(KeyEvent {
        code: KeyCode::Backspace,
        ctrl: false,
        alt: false,
    });
    let accepted = view.handle_key_event(KeyEvent {
        code: KeyCode::Enter,
        ctrl: false,
        alt: false,
    });
    assert_eq!(accepted.unwrap(), vec!['a', 'b']);
    assert!(view.is_complete());
}

#[test]
fn text_input_escape_and_ctrl_c_dismiss() {
    let mut view = TextInputView::new(String::from("T"), Some(String::from("s")), None, Vec::new());
    assert_eq!(view.desired_height(80), 4);
    let none = view.handle_key_event(KeyEvent {
        code: KeyCode::Esc,
        ctrl: false,
        alt: false,
    });
    assert!(none.is_none());
    assert!(view.is_complete());

    let mut view = TextInputView::new(String::from("T"), None, None, Vec::new());
    assert_eq!(view.desired_height(80), 2);
    assert!(view.on_ctrl_c());
    assert!(view.is_complete());
}

#[test]
fn summary_json_on_shutdown() {
    let mut proc = EventProcessorWithJsonOutput::new(None, true, Some(bytes("summary.json")));
    let (status, acts) = proc.process_event(Event {
        msg: EventMsg::SessionConfigured {
            session_id: bytes("0000-1111"),
            model: bytes("gpt-5"),
            rollout_path: bytes("/tmp/rollout-xyz.jsonl"),
        },
        json: bytes("{\"id\":\"0\",\"msg\":{\"type\":\"session_configured\"}}"),
    });
    assert_eq!(status, CodexStatus::Running);
    // the session-configured event is printed as it arrived
    assert_eq!(
        acts,
        vec![OutputAction::PrintLine(bytes(
            "{\"id\":\"0\",\"msg\":{\"type\":\"session_configured\"}}"
        ))]
    );
    let (status, acts) = proc.process_event(Event {
        msg: EventMsg::TaskComplete {
            last_agent_message: None,
        },
        json: bytes("{}"),
    });
    assert_eq!(status, CodexStatus::InitiateShutdown);
    assert!(acts.is_empty());
    let (status, acts) = proc.process_event(Event {
        msg: EventMsg::ShutdownComplete,
        json: bytes("{}"),
    });
    assert_eq!(status, CodexStatus::Shutdown);
    let expected = bytes(
        "{\"type\":\"session_summary\",\"session_id\":\"0000-1111\",\"rollout_path\":\"/tmp/rollout-xyz.jsonl\",\"model\":\"gpt-5\"}",
    );
    assert_eq!(
        acts,
        vec![
            OutputAction::PrintLine(expected.clone()),
            OutputAction::WriteSummaryFile {
                path: bytes("summary.json"),
                json: expected,
            },
        ]
    );
}

#[test]
fn deltas_are_suppressed_and_last_message_written() {
    let mut proc = EventProcessorWithJsonOutput::new(Some(bytes("last.txt")), false, None);
    let (status, acts) = proc.process_event(Event {
        msg: EventMsg::AgentMessageDelta,
        json: bytes("{\"delta\":\"x\"}"),
    });
    assert_eq!(status, CodexStatus::Running);
    assert!(acts.is_empty());
    let (status, acts) = proc.process_event(Event {
        msg: EventMsg::TaskComplete {
            last_agent_message: Some(bytes("done")),
        },
        json: bytes("{}"),
    });
    assert_eq!(status, CodexStatus::InitiateShutdown);
    assert_eq!(
        acts,
        vec![OutputAction::WriteLastMessage {
            path: bytes("last.txt"),
            message: Some(bytes("done")),
        }]
    );
    // no summary was requested, so shutdown emits nothing
    let (status, acts) = proc.process_event(Event {
        msg: EventMsg::ShutdownComplete,
        json: bytes("{}"),
    });
    assert_eq!(status, CodexStatus::Shutdown);
    assert!(acts.is_empty());
}

#[test]
fn config_summary_prints_entries_then_prompt() {
    let proc = EventProcessorWithJsonOutput::new(None, false, None);
    let acts = proc.print_config_summary(
        vec![(bytes("model"), bytes("gpt-5")), (bytes("cwd"), bytes("/w"))],
        bytes("hello"),
    );
    assert_eq!(
        acts,
        vec![
            OutputAction::PrintLine(bytes("{\"model\":\"gpt-5\",\"cwd\":\"/w\"}")),
            OutputAction::PrintLine(bytes("{\"prompt\":\"hello\"}")),
        ]
    );
}
