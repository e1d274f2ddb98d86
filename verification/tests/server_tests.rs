use codex_web::broker::SessionEntry;
use codex_web::login::CredFileState;
use codex_web::login::LoginCoordinator;
use codex_web::login::LoginStatus;
use codex_web::login::PendingLogin;
use codex_web::registry::Registry;
use codex_web::wsflow::FrameAction;
use codex_web::wsflow::PtyAction;
use codex_web::wsflow::UpgradeAction;
use codex_web::wsflow::WsFrame;
use codex_web::wsflow::events_upgrade;
use codex_web::wsflow::parse_session_id;
use codex_web::wsflow::pty_default_geometry;
use codex_web::wsflow::pty_frame_action;
use codex_web::wsflow::pty_read_chunk;
use codex_web::wsflow::pty_unsupported_frame;
use codex_web::wsflow::rollout_item_id;
use codex_web::wsflow::session_not_found_frame;
use codex_web::ops::ClientMsg;

fn bytes(s: &str) -> Vec<u8> {
    s.as_bytes().to_vec()
}

#[test]
fn login_is_single_flight() {
    let mut login = LoginCoordinator::new();
    let first = PendingLogin {
        auth_url: bytes("https://auth.example/one"),
        port: 4001,
        handle: 1,
    };
    let cancelled = login.start(first);
    assert_eq!(cancelled, None);
    let second = PendingLogin {
        auth_url: bytes("https://auth.example/two"),
        port: 4002,
        handle: 2,
    };
    // starting again hands the first server's cancel handle back
    let cancelled = login.start(second);
    assert_eq!(cancelled, Some(1));
    // status reports the second login's auth url
    match login.status(CredFileState::Absent) {
        LoginStatus::Pending { auth_url, port } => {
            assert_eq!(auth_url, bytes("https://auth.example/two"));
            assert_eq!(port, 4002);
        }
        other => panic!("expected pending, got {other:?}"),
    }
}

#[test]
fn cancel_is_idempotent() {
    let mut login = LoginCoordinator::new();
    // cancelling with nothing pending is a no-op that succeeds
    assert_eq!(login.cancel(), None);
    assert_eq!(login.cancel(), None);
    let cancelled = login.start(PendingLogin {
        auth_url: bytes("u"),
        port: 1,
        handle: 9,
    });
    assert_eq!(cancelled, None);
    assert_eq!(login.cancel(), Some(9));
    assert_eq!(login.cancel(), None);
}

#[test]
fn status_reads_credential_file_state() {
    let login = LoginCoordinator::new();
    assert_eq!(
        login.status(CredFileState::Absent),
        LoginStatus::NotAuthenticated
    );
    assert_eq!(
        login.status(CredFileState::Parsed { has_api_key: true }),
        LoginStatus::ApiKey
    );
    assert_eq!(
        login.status(CredFileState::Parsed { has_api_key: false }),
        LoginStatus::ChatGpt
    );
    assert_eq!(
        login.status(CredFileState::Unreadable),
        LoginStatus::ReadError
    );
}

#[test]
fn registry_resolves_registered_ids_only() {
    let mut reg = Registry::new();
    assert!(reg.get(7).is_none());
    reg.insert(7, SessionEntry::new(None, 1024));
    assert!(reg.get(7).is_some());
    assert!(reg.get(8).is_none());
}

#[test]
fn unknown_session_yields_one_not_found_frame() {
    let reg = Registry::new();
    let id = parse_session_id("00000000-0000-0000-0000-000000000000").expect("nil UUID parses");
    assert_eq!(id, 0);
    assert!(reg.get(id).is_none());
    assert_eq!(
        session_not_found_frame(),
        bytes("{\"type\":\"error\",\"message\":\"session not found\"}")
    );
}

#[test]
fn malformed_session_id_is_rejected_with_one_frame() {
    assert!(parse_session_id("not-a-uuid").is_none());
    match events_upgrade("not-a-uuid") {
        UpgradeAction::Reject(frame) => assert_eq!(
            frame,
            bytes("{\"type\":\"error\",\"message\":\"invalid session id\"}")
        ),
        UpgradeAction::Attach(_) => panic!("malformed id must not attach"),
    }
    match events_upgrade("a1a2a3a4-b1b2-c1c2-d1d2-d3d4d5d6d7d8") {
        UpgradeAction::Attach(v) => assert_eq!(v, 0xa1a2a3a4b1b2c1c2d1d2d3d4d5d6d7d8),
        UpgradeAction::Reject(_) => panic!("well-formed id must attach"),
    }
}

#[test]
fn frames_drive_the_read_loop() {
    match handle(WsFrame::Text(bytes("{\"type\":\"interrupt\"}"))) {
        FrameAction::Forward(m) => assert_eq!(m, ClientMsg::Interrupt),
        other => panic!("expected a forwarded op, got {other:?}"),
    }
    // a malformed frame is dropped and the connection stays open
    assert!(matches!(
        handle(WsFrame::Text(bytes("nonsense"))),
        FrameAction::Ignore
    ));
    assert!(matches!(
        handle(WsFrame::Binary(vec![1, 2, 3])),
        FrameAction::Ignore
    ));
    assert!(matches!(handle(WsFrame::Ping(vec![])), FrameAction::Ignore));
    assert!(matches!(handle(WsFrame::Close), FrameAction::Stop));
}

fn handle(f: WsFrame) -> FrameAction {
    codex_web::wsflow::handle_frame(f)
}

#[test]
fn pty_bridge_decisions() {
    assert_eq!(pty_default_geometry(), (30, 100));
    assert_eq!(pty_read_chunk(), 8192);
    match pty_frame_action(WsFrame::Text(bytes("ls\n"))) {
        PtyAction::Write(b) => assert_eq!(b, bytes("ls\n")),
        other => panic!("expected a write, got {other:?}"),
    }
    assert!(matches!(pty_frame_action(WsFrame::Close), PtyAction::Stop));
    assert!(matches!(
        pty_frame_action(WsFrame::Binary(vec![0])),
        PtyAction::Ignore
    ));
    assert_eq!(
        pty_unsupported_frame(),
        bytes("{\"type\":\"error\",\"message\":\"pty not supported on this platform\"}")
    );
}

#[test]
fn rollout_ids_are_file_names() {
    assert_eq!(
        rollout_item_id(b"/home/u/.codex/sessions/rollout-xyz.jsonl"),
        bytes("rollout-xyz.jsonl")
    );
    assert_eq!(rollout_item_id(b"rollout-abc.jsonl"), bytes("rollout-abc.jsonl"));
    // no nonempty final component: the whole path stands in
    assert_eq!(rollout_item_id(b"/sessions/"), bytes("/sessions/"));
    assert_eq!(rollout_item_id(b""), bytes(""));
}
