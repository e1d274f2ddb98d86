use codex_web::codec::parse_client_msg;
use codex_web::codec::serialize_client_msg;
use codex_web::ops::AskForApproval;
use codex_web::ops::ClientMsg;
use codex_web::ops::InputItem;
use codex_web::ops::ReasoningEffort;
use codex_web::ops::ReviewDecision;
use codex_web::ops::RuntimeOp;
use codex_web::ops::SandboxMode;
use codex_web::ops::SandboxPolicy;
use codex_web::ops::translate;

fn bytes(s: &str) -> Vec<u8> {
    s.as_bytes().to_vec()
}

#[test]
fn parses_user_message() {
    let m = parse_client_msg(b"{\"type\":\"user_message\",\"text\":\"A\"}").unwrap();
    assert_eq!(
        m,
        ClientMsg::UserMessage {
            text: bytes("A"),
            images: None,
        }
    );
}

#[test]
fn parses_user_message_with_images_and_key_order() {
    let m =
        parse_client_msg(b" { \"images\" : [\"u1\", \"u2\"] , \"type\" : \"user_message\", \"text\" : \"hi\" } ")
            .unwrap();
    assert_eq!(
        m,
        ClientMsg::UserMessage {
            text: bytes("hi"),
            images: Some(vec![bytes("u1"), bytes("u2")]),
        }
    );
}

#[test]
fn parses_interrupt_and_compact() {
    assert_eq!(
        parse_client_msg(b"{\"type\":\"interrupt\"}").unwrap(),
        ClientMsg::Interrupt
    );
    assert_eq!(
        parse_client_msg(b"{\"type\":\"compact\"}").unwrap(),
        ClientMsg::Compact
    );
}

#[test]
fn parses_approvals() {
    let m = parse_client_msg(b"{\"type\":\"exec_approval\",\"id\":\"7\",\"decision\":\"approved\"}")
        .unwrap();
    assert_eq!(
        m,
        ClientMsg::ExecApproval {
            id: bytes("7"),
            decision: ReviewDecision::Approved,
        }
    );
    let m = parse_client_msg(
        b"{\"type\":\"patch_approval\",\"id\":\"8\",\"decision\":\"approved_for_session\"}",
    )
    .unwrap();
    assert_eq!(
        m,
        ClientMsg::PatchApproval {
            id: bytes("8"),
            decision: ReviewDecision::ApprovedForSession,
        }
    );
}

#[test]
fn parses_override_with_nulls() {
    let m = parse_client_msg(
        b"{\"type\":\"override_turn_context\",\"model\":null,\"approval_policy\":\"on-request\"}",
    )
    .unwrap();
    assert_eq!(
        m,
        ClientMsg::OverrideTurnContext {
            cwd: None,
            model: None,
            approval_policy: Some(AskForApproval::OnRequest),
            effort: None,
            sandbox_mode: None,
        }
    );
}

#[test]
fn parses_override_full() {
    let m = parse_client_msg(
        b"{\"type\":\"override_turn_context\",\"cwd\":\"/w\",\"model\":\"gpt-5\",\"approval_policy\":\"never\",\"effort\":\"high\",\"sandbox_mode\":\"workspace-write\"}",
    )
    .unwrap();
    assert_eq!(
        m,
        ClientMsg::OverrideTurnContext {
            cwd: Some(bytes("/w")),
            model: Some(bytes("gpt-5")),
            approval_policy: Some(AskForApproval::Never),
            effort: Some(ReasoningEffort::High),
            sandbox_mode: Some(SandboxMode::WorkspaceWrite),
        }
    );
}

#[test]
fn rejects_malformed_frames() {
    assert!(parse_client_msg(b"").is_none());
    assert!(parse_client_msg(b"not json").is_none());
    assert!(parse_client_msg(b"{\"text\":\"A\"}").is_none());
    assert!(parse_client_msg(b"{\"type\":\"no_such_op\"}").is_none());
    assert!(parse_client_msg(b"{\"type\":\"user_message\"}").is_none());
    assert!(parse_client_msg(b"{\"type\":\"exec_approval\",\"id\":\"1\",\"decision\":\"maybe\"}").is_none());
    assert!(parse_client_msg(b"{\"type\":\"user_message\",\"text\":\"A\"").is_none());
    assert!(parse_client_msg(b"{\"type\":\"user_message\",\"text\":\"A\"} trailing").is_none());
}

#[test]
fn unknown_keys_are_ignored() {
    let m = parse_client_msg(
        b"{\"type\":\"interrupt\",\"extra\":123,\"more\":true,\"also\":null,\"s\":\"x\"}",
    )
    .unwrap();
    assert_eq!(m, ClientMsg::Interrupt);
}

#[test]
fn serializes_canonically() {
    let m = ClientMsg::UserMessage {
        text: bytes("A"),
        images: None,
    };
    assert_eq!(
        serialize_client_msg(&m),
        bytes("{\"type\":\"user_message\",\"text\":\"A\"}")
    );
    let m = ClientMsg::ExecApproval {
        id: bytes("7"),
        decision: ReviewDecision::Denied,
    };
    assert_eq!(
        serialize_client_msg(&m),
        bytes("{\"type\":\"exec_approval\",\"id\":\"7\",\"decision\":\"denied\"}")
    );
}

#[test]
fn round_trips_every_variant() {
    let msgs = vec![
        ClientMsg::UserMessage {
            text: bytes("hello \"world\"\nline\ttwo\\"),
            images: Some(vec![bytes("https://a/b.png"), bytes("u2")]),
        },
        ClientMsg::UserMessage {
            text: vec![0x01, 0x1f, 0xc3, 0xa9],
            images: None,
        },
        ClientMsg::Interrupt,
        ClientMsg::ExecApproval {
            id: bytes("id-1"),
            decision: ReviewDecision::Abort,
        },
        ClientMsg::PatchApproval {
            id: bytes("id-2"),
            decision: ReviewDecision::Denied,
        },
        ClientMsg::Compact,
        ClientMsg::OverrideTurnContext {
            cwd: Some(bytes("/workspace")),
            model: None,
            approval_policy: Some(AskForApproval::Untrusted),
            effort: Some(ReasoningEffort::Minimal),
            sandbox_mode: Some(SandboxMode::DangerFullAccess),
        },
        ClientMsg::OverrideTurnContext {
            cwd: None,
            model: None,
            approval_policy: None,
            effort: None,
            sandbox_mode: None,
        },
    ];
    for m in msgs {
        let j = serialize_client_msg(&m);
        let back = parse_client_msg(&j).expect("canonical form must parse");
        assert_eq!(back, m);
        // re-serializing the parsed form gives the same bytes back
        assert_eq!(serialize_client_msg(&back), j);
    }
}

#[test]
fn parses_string_escapes() {
    let m = parse_client_msg(b"{\"type\":\"user_message\",\"text\":\"a\\n\\t\\\"b\\\\c\\u0041\\u007f\"}")
        .unwrap();
    assert_eq!(
        m,
        ClientMsg::UserMessage {
            text: vec![b'a', b'\n', b'\t', b'"', b'b', b'\\', b'c', b'A', 0x7f],
            images: None,
        }
    );
}

#[test]
fn translates_user_message_in_order() {
    let m = ClientMsg::UserMessage {
        text: bytes("T"),
        images: Some(vec![bytes("u1"), bytes("u2")]),
    };
    assert_eq!(
        translate(m),
        RuntimeOp::UserInput {
            items: vec![
                InputItem::Text { text: bytes("T") },
                InputItem::Image { image_url: bytes("u1") },
                InputItem::Image { image_url: bytes("u2") },
            ],
        }
    );
}

#[test]
fn translates_sandbox_modes() {
    let cases = vec![
        (Some(SandboxMode::ReadOnly), Some(SandboxPolicy::ReadOnly)),
        (
            Some(SandboxMode::WorkspaceWrite),
            Some(SandboxPolicy::WorkspaceWrite),
        ),
        (
            Some(SandboxMode::DangerFullAccess),
            Some(SandboxPolicy::DangerFullAccess),
        ),
        (None, None),
    ];
    for (mode, policy) in cases {
        let m = ClientMsg::OverrideTurnContext {
            cwd: None,
            model: None,
            approval_policy: None,
            effort: None,
            sandbox_mode: mode,
        };
        assert_eq!(
            translate(m),
            RuntimeOp::OverrideTurnContext {
                cwd: None,
                model: None,
                approval_policy: None,
                effort: None,
                sandbox_policy: policy,
            }
        );
    }
}
