//! Decision logic of the WebSocket handlers: how an events upgrade turns
//! the id in the URL into an attach or a single error frame, what each
//! inbound frame does to the connection, and the small fixed decisions of
//! the PTY bridge. The transport — accepting sockets, sending frames,
//! opening terminals — stays outside; it hands frames in and carries the
//! decided actions out.

use vstd::prelude::*;
use crate::codec::k_type;
use crate::codec::k_type_exec;
use crate::codec::parse_client_msg;
use crate::codec::parse_client_msg_spec;
use crate::json::JsonPairs;
use crate::json::JsonValS;
use crate::json::JsonVal;
use crate::json::ser_obj;
use crate::json::ser_obj_exec;
use crate::json::pairs_view;
use crate::ops::ClientMsg;

verus! {

/// `"message"` as bytes.
pub open spec fn k_message() -> Seq<u8> {
    seq![109, 101, 115, 115, 97, 103, 101]
}

/// `"error"` as bytes.
pub open spec fn v_error() -> Seq<u8> {
    seq![101, 114, 114, 111, 114]
}

/// `"invalid session id"` as bytes.
pub open spec fn m_invalid_session() -> Seq<u8> {
    seq![105, 110, 118, 97, 108, 105, 100, 32, 115, 101, 115, 115, 105, 111, 110, 32, 105, 100]
}

/// `"session not found"` as bytes.
pub open spec fn m_session_not_found() -> Seq<u8> {
    seq![115, 101, 115, 115, 105, 111, 110, 32, 110, 111, 116, 32, 102, 111, 117, 110, 100]
}

/// `"pty not supported on this platform"` as bytes.
pub open spec fn m_pty_unsupported() -> Seq<u8> {
    seq![
        112, 116, 121, 32, 110, 111, 116, 32, 115, 117, 112, 112, 111, 114, 116, 101, 100, 32,
        111, 110, 32, 116, 104, 105, 115, 32, 112, 108, 97, 116, 102, 111, 114, 109,
    ]
}

/// The single error frame sent on a failed upgrade:
/// `{"type":"error","message":<msg>}`.
pub open spec fn error_frame_spec(msg: Seq<u8>) -> Seq<u8> {
    ser_obj(
        seq![(k_type(), JsonValS::Str(v_error())), (k_message(), JsonValS::Str(msg))],
    )
}

/// Builds the error frame for a message.
fn error_frame(msg: Vec<u8>) -> (r: Vec<u8>)
    ensures
        r@ == error_frame_spec(msg@),
{
    let ghost msgv = msg@;
    let mut ms: JsonPairs = Vec::new();
    let k: Vec<u8> = vec![109, 101, 115, 115, 97, 103, 101];
    let e: Vec<u8> = vec![101, 114, 114, 111, 114];
    ms.push((k_type_exec(), JsonVal::Str(e)));
    ms.push((k, JsonVal::Str(msg)));
    proof {
        assert(pairs_view(ms) =~= seq![
            (k_type(), JsonValS::Str(v_error())),
            (k_message(), JsonValS::Str(msgv)),
        ]);
    }
    ser_obj_exec(&ms)
}

/// The frame sent when the id in the URL is not a session id.
pub fn invalid_session_frame() -> (r: Vec<u8>)
    ensures
        r@ == error_frame_spec(m_invalid_session()),
{
    let m: Vec<u8> = vec![
        105, 110, 118, 97, 108, 105, 100, 32, 115, 101, 115, 115, 105, 111, 110, 32, 105, 100,
    ];
    proof {
        assert(m@ =~= m_invalid_session());
    }
    error_frame(m)
}

/// The frame sent when no session is registered under the id.
pub fn session_not_found_frame() -> (r: Vec<u8>)
    ensures
        r@ == error_frame_spec(m_session_not_found()),
{
    let m: Vec<u8> = vec![
        115, 101, 115, 115, 105, 111, 110, 32, 110, 111, 116, 32, 102, 111, 117, 110, 100,
    ];
    proof {
        assert(m@ =~= m_session_not_found());
    }
    error_frame(m)
}

/// The frame sent where the platform has no terminal devices.
pub fn pty_unsupported_frame() -> (r: Vec<u8>)
    ensures
        r@ == error_frame_spec(m_pty_unsupported()),
{
    let m: Vec<u8> = vec![
        112, 116, 121, 32, 110, 111, 116, 32, 115, 117, 112, 112, 111, 114, 116, 101, 100, 32,
        111, 110, 32, 116, 104, 105, 115, 32, 112, 108, 97, 116, 102, 111, 114, 109,
    ];
    proof {
        assert(m@ =~= m_pty_unsupported());
    }
    error_frame(m)
}

/// What `uuid::Uuid::parse_str` makes of a string: the 128-bit value of
/// the UUID it denotes, or nothing. A function of the characters alone.
pub uninterp spec fn uuid_of(s: Seq<char>) -> Option<u128>;

/// Relies on `uuid::Uuid::parse_str`, which accepts the simple,
/// hyphenated, URN and braced UUID formats, and `Uuid::as_u128`, which
/// returns the UUID's bytes as one big-endian 128-bit value.
#[verifier::external_body]
pub fn parse_session_id(s: &str) -> (r: Option<u128>)
    ensures
        r == uuid_of(s@),
{
    uuid::Uuid::parse_str(s).ok().map(|u| u.as_u128())
}

/// What an events upgrade does before any lookup: attach under the
/// session id the URL names, or send one error frame and close.
pub enum UpgradeAction {
    Attach(u128),
    Reject(Vec<u8>),
}

/// Decides an events upgrade from the id segment of the URL: a malformed
/// id is answered with exactly one `invalid session id` frame; a
/// well-formed one proceeds to the registry lookup under its value.
pub fn events_upgrade(id: &str) -> (r: UpgradeAction)
    ensures
        match uuid_of(id@) {
            Some(u) => r matches UpgradeAction::Attach(v) && v == u,
            None => r matches UpgradeAction::Reject(f) && f@ == error_frame_spec(
                m_invalid_session(),
            ),
        },
{
    match parse_session_id(id) {
        Some(u) => UpgradeAction::Attach(u),
        None => UpgradeAction::Reject(invalid_session_frame()),
    }
}

/// One inbound WebSocket frame, as the transport hands it over.
pub enum WsFrame {
    Text(Vec<u8>),
    Binary(Vec<u8>),
    Ping(Vec<u8>),
    Close,
}

/// What the events read loop does with one frame.
#[derive(Debug)]
pub enum FrameAction {
    Forward(ClientMsg),
    Ignore,
    Stop,
}

/// Decides one frame of the events read loop: a text frame that parses as
/// a client message is forwarded to the op queue; a malformed text frame
/// is dropped and the connection stays open; pings and binary frames are
/// ignored; a close frame ends the loop.
pub fn handle_frame(f: WsFrame) -> (r: FrameAction)
    ensures
        match f {
            WsFrame::Text(t) => match parse_client_msg_spec(t@) {
                Some(m) => r matches FrameAction::Forward(c) && c@ == m,
                None => r is Ignore,
            },
            WsFrame::Binary(_) => r is Ignore,
            WsFrame::Ping(_) => r is Ignore,
            WsFrame::Close => r is Stop,
        },
{
    match f {
        WsFrame::Text(t) => match parse_client_msg(t.as_slice()) {
            Some(m) => FrameAction::Forward(m),
            None => FrameAction::Ignore,
        },
        WsFrame::Binary(_) => FrameAction::Ignore,
        WsFrame::Ping(_) => FrameAction::Ignore,
        WsFrame::Close => FrameAction::Stop,
    }
}

/// The default terminal geometry the PTY bridge opens with.
pub fn pty_default_geometry() -> (r: (u16, u16))
    ensures
        r.0 == 30,
        r.1 == 100,
{
    (30, 100)
}

/// How many bytes one blocking read of the terminal master may hand over
/// at most.
pub fn pty_read_chunk() -> (r: usize)
    ensures
        r == 8192,
{
    8192
}

/// What the PTY write loop does with one frame.
#[derive(Debug)]
pub enum PtyAction {
    Write(Vec<u8>),
    Ignore,
    Stop,
}

/// Decides one frame of the PTY write loop: the bytes of a text frame are
/// written to the terminal verbatim and flushed; a close frame ends the
/// bridge; everything else is ignored.
pub fn pty_frame_action(f: WsFrame) -> (r: PtyAction)
    ensures
        match f {
            WsFrame::Text(t) => r matches PtyAction::Write(b) && b@ == t@,
            WsFrame::Binary(_) => r is Ignore,
            WsFrame::Ping(_) => r is Ignore,
            WsFrame::Close => r is Stop,
        },
{
    match f {
        WsFrame::Text(t) => PtyAction::Write(t),
        WsFrame::Binary(_) => PtyAction::Ignore,
        WsFrame::Ping(_) => PtyAction::Ignore,
        WsFrame::Close => PtyAction::Stop,
    }
}

/// Index of the last path separator in `p`, or -1 if there is none.
pub open spec fn last_slash(p: Seq<u8>) -> int
    decreases p.len(),
{
    if p.len() == 0 {
        -1
    } else if p.last() == 47 {
        p.len() - 1
    } else {
        last_slash(p.drop_last())
    }
}

/// The listing id of a rollout file: the final path component, or the
/// whole path where no nonempty component follows the last separator.
pub open spec fn rollout_id_spec(p: Seq<u8>) -> Seq<u8> {
    let ls = last_slash(p);
    if 0 <= ls < p.len() - 1 {
        p.skip(ls + 1)
    } else if ls == -1 {
        p
    } else {
        p
    }
}

/// The last separator is a separator, and nothing after it is one.
proof fn lemma_last_slash(p: Seq<u8>)
    ensures
        -1 <= last_slash(p) < p.len(),
        last_slash(p) >= 0 ==> p[last_slash(p)] == 47,
        forall|j: int| last_slash(p) < j < p.len() ==> p[j] != 47,
    decreases p.len(),
{
    if p.len() == 0 {
    } else if p.last() == 47 {
    } else {
        lemma_last_slash(p.drop_last());
        assert(forall|j: int| 0 <= j < p.len() - 1 ==> p[j] == p.drop_last()[j]);
    }
}

/// Extracts the listing id of a rollout path: the bytes after the last
/// separator, or the whole path where that would be empty or there is no
/// separator.
pub fn rollout_item_id(p: &[u8]) -> (r: Vec<u8>)
    ensures
        r@ == rollout_id_spec(p@),
{
    proof {
        lemma_last_slash(p@);
    }
    let n = p.len();
    let mut i: usize = n;
    while i > 0 && p[i - 1] != 47
        invariant
            0 <= i <= n,
            n == p@.len(),
            forall|j: int| i <= j < n ==> p@[j] != 47,
        decreases i,
    {
        i = i - 1;
    }
    if i == 0 {
        proof {
            assert(last_slash(p@) == -1) by {
                lemma_last_slash(p@);
                if last_slash(p@) >= 0 {
                    assert(p@[last_slash(p@)] == 47);
                }
            }
        }
        vstd::slice::slice_to_vec(p)
    } else {
        proof {
            lemma_last_slash(p@);
            assert(p@[i - 1] == 47);
            assert(last_slash(p@) == i - 1) by {
                if last_slash(p@) > i - 1 {
                    assert(p@[last_slash(p@)] != 47);
                }
                if last_slash(p@) < i - 1 {
                    assert(p@[i - 1] != 47);
                }
            }
        }
        if i == n {
            // the path ends in a separator: no nonempty final component
            vstd::slice::slice_to_vec(p)
        } else {
            let r = vstd::slice::slice_subrange(p, i, n);
            proof {
                assert(r@ =~= p@.skip(i as int));
            }
            vstd::slice::slice_to_vec(r)
        }
    }
}

} // verus!
