//! The client-operation schema: the tagged union of inbound control
//! messages, and its translation into the runtime's op representation.
//!
//! Strings travel as raw bytes (the UTF-8 of the text), so the codec and the
//! translation are byte-exact.

use vstd::prelude::*;
use crate::json::vecs_view;

verus! {

/// Answer to a pending approval request.
#[derive(Clone, Copy, PartialEq, Eq, Structural, Debug)]
pub enum ReviewDecision {
    Approved,
    ApprovedForSession,
    Denied,
    Abort,
}

/// When the runtime must ask before running a command.
#[derive(Clone, Copy, PartialEq, Eq, Structural, Debug)]
pub enum AskForApproval {
    Untrusted,
    OnFailure,
    OnRequest,
    Never,
}

/// Reasoning effort override for the model.
#[derive(Clone, Copy, PartialEq, Eq, Structural, Debug)]
pub enum ReasoningEffort {
    Minimal,
    Low,
    Medium,
    High,
}

/// Requested sandbox mode, as a client names it.
#[derive(Clone, Copy, PartialEq, Eq, Structural, Debug)]
pub enum SandboxMode {
    ReadOnly,
    WorkspaceWrite,
    DangerFullAccess,
}

/// The sandbox policy variant the runtime takes.
#[derive(Clone, Copy, PartialEq, Eq, Structural, Debug)]
pub enum SandboxPolicy {
    ReadOnly,
    WorkspaceWrite,
    DangerFullAccess,
}

/// Inbound control message of one WebSocket frame.
#[derive(Debug, PartialEq, Eq)]
pub enum ClientMsg {
    UserMessage { text: Vec<u8>, images: Option<Vec<Vec<u8>>> },
    Interrupt,
    ExecApproval { id: Vec<u8>, decision: ReviewDecision },
    PatchApproval { id: Vec<u8>, decision: ReviewDecision },
    Compact,
    OverrideTurnContext {
        cwd: Option<Vec<u8>>,
        model: Option<Vec<u8>>,
        approval_policy: Option<AskForApproval>,
        effort: Option<ReasoningEffort>,
        sandbox_mode: Option<SandboxMode>,
    },
}

/// Mathematical form of a `ClientMsg`.
#[verifier::ext_equal]
pub enum ClientMsgS {
    UserMessage { text: Seq<u8>, images: Option<Seq<Seq<u8>>> },
    Interrupt,
    ExecApproval { id: Seq<u8>, decision: ReviewDecision },
    PatchApproval { id: Seq<u8>, decision: ReviewDecision },
    Compact,
    OverrideTurnContext {
        cwd: Option<Seq<u8>>,
        model: Option<Seq<u8>>,
        approval_policy: Option<AskForApproval>,
        effort: Option<ReasoningEffort>,
        sandbox_mode: Option<SandboxMode>,
    },
}

impl View for ClientMsg {
    type V = ClientMsgS;

    open spec fn view(&self) -> ClientMsgS {
        match self {
            ClientMsg::UserMessage { text, images } => ClientMsgS::UserMessage {
                text: text@,
                images: match images {
                    Some(a) => Some(vecs_view(a@)),
                    None => None,
                },
            },
            ClientMsg::Interrupt => ClientMsgS::Interrupt,
            ClientMsg::ExecApproval { id, decision } => ClientMsgS::ExecApproval {
                id: id@,
                decision: *decision,
            },
            ClientMsg::PatchApproval { id, decision } => ClientMsgS::PatchApproval {
                id: id@,
                decision: *decision,
            },
            ClientMsg::Compact => ClientMsgS::Compact,
            ClientMsg::OverrideTurnContext { cwd, model, approval_policy, effort, sandbox_mode } =>
                ClientMsgS::OverrideTurnContext {
                cwd: match cwd {
                    Some(c) => Some(c@),
                    None => None,
                },
                model: match model {
                    Some(m) => Some(m@),
                    None => None,
                },
                approval_policy: *approval_policy,
                effort: *effort,
                sandbox_mode: *sandbox_mode,
            },
        }
    }
}

/// One item of a user turn handed to the runtime.
#[derive(Debug, PartialEq, Eq)]
pub enum InputItem {
    Text { text: Vec<u8> },
    Image { image_url: Vec<u8> },
}

/// Mathematical form of an `InputItem`.
#[verifier::ext_equal]
pub enum InputItemS {
    Text { text: Seq<u8> },
    Image { image_url: Seq<u8> },
}

impl View for InputItem {
    type V = InputItemS;

    open spec fn view(&self) -> InputItemS {
        match self {
            InputItem::Text { text } => InputItemS::Text { text: text@ },
            InputItem::Image { image_url } => InputItemS::Image { image_url: image_url@ },
        }
    }
}

/// An op in the runtime's own representation, as the op consumer submits
/// it.
#[derive(Debug, PartialEq, Eq)]
pub enum RuntimeOp {
    UserInput { items: Vec<InputItem> },
    Interrupt,
    ExecApproval { id: Vec<u8>, decision: ReviewDecision },
    PatchApproval { id: Vec<u8>, decision: ReviewDecision },
    Compact,
    OverrideTurnContext {
        cwd: Option<Vec<u8>>,
        model: Option<Vec<u8>>,
        approval_policy: Option<AskForApproval>,
        effort: Option<ReasoningEffort>,
        sandbox_policy: Option<SandboxPolicy>,
    },
}

/// Mathematical form of a `RuntimeOp`.
#[verifier::ext_equal]
pub enum RuntimeOpS {
    UserInput { items: Seq<InputItemS> },
    Interrupt,
    ExecApproval { id: Seq<u8>, decision: ReviewDecision },
    PatchApproval { id: Seq<u8>, decision: ReviewDecision },
    Compact,
    OverrideTurnContext {
        cwd: Option<Seq<u8>>,
        model: Option<Seq<u8>>,
        approval_policy: Option<AskForApproval>,
        effort: Option<ReasoningEffort>,
        sandbox_policy: Option<SandboxPolicy>,
    },
}

impl View for RuntimeOp {
    type V = RuntimeOpS;

    open spec fn view(&self) -> RuntimeOpS {
        match self {
            RuntimeOp::UserInput { items } => RuntimeOpS::UserInput {
                items: items@.map_values(|it: InputItem| it@),
            },
            RuntimeOp::Interrupt => RuntimeOpS::Interrupt,
            RuntimeOp::ExecApproval { id, decision } => RuntimeOpS::ExecApproval {
                id: id@,
                decision: *decision,
            },
            RuntimeOp::PatchApproval { id, decision } => RuntimeOpS::PatchApproval {
                id: id@,
                decision: *decision,
            },
            RuntimeOp::Compact => RuntimeOpS::Compact,
            RuntimeOp::OverrideTurnContext {
                cwd,
                model,
                approval_policy,
                effort,
                sandbox_policy,
            } => RuntimeOpS::OverrideTurnContext {
                cwd: match cwd {
                    Some(c) => Some(c@),
                    None => None,
                },
                model: match model {
                    Some(m) => Some(m@),
                    None => None,
                },
                approval_policy: *approval_policy,
                effort: *effort,
                sandbox_policy: *sandbox_policy,
            },
        }
    }
}

/// How the requested sandbox mode expands into the runtime's policy.
pub open spec fn expand_sandbox_spec(m: Option<SandboxMode>) -> Option<SandboxPolicy> {
    match m {
        Some(SandboxMode::ReadOnly) => Some(SandboxPolicy::ReadOnly),
        Some(SandboxMode::WorkspaceWrite) => Some(SandboxPolicy::WorkspaceWrite),
        Some(SandboxMode::DangerFullAccess) => Some(SandboxPolicy::DangerFullAccess),
        None => None,
    }
}

/// How one client message translates into a runtime op: a user message
/// becomes a user-input op whose items are the leading text followed by one
/// image per URL in order; the sandbox mode expands to the matching policy;
/// every other variant maps one-to-one.
pub open spec fn translate_spec(m: ClientMsgS) -> RuntimeOpS {
    match m {
        ClientMsgS::UserMessage { text, images } => RuntimeOpS::UserInput {
            items: seq![InputItemS::Text { text }].add(
                match images {
                    Some(a) => a.map_values(|u: Seq<u8>| InputItemS::Image { image_url: u }),
                    None => Seq::empty(),
                },
            ),
        },
        ClientMsgS::Interrupt => RuntimeOpS::Interrupt,
        ClientMsgS::ExecApproval { id, decision } => RuntimeOpS::ExecApproval { id, decision },
        ClientMsgS::PatchApproval { id, decision } => RuntimeOpS::PatchApproval { id, decision },
        ClientMsgS::Compact => RuntimeOpS::Compact,
        ClientMsgS::OverrideTurnContext { cwd, model, approval_policy, effort, sandbox_mode } =>
            RuntimeOpS::OverrideTurnContext {
            cwd,
            model,
            approval_policy,
            effort,
            sandbox_policy: expand_sandbox_spec(sandbox_mode),
        },
    }
}

/// Translates one client message into the runtime op the op consumer
/// submits for it.
pub fn translate(m: ClientMsg) -> (r: RuntimeOp)
    ensures
        r@ == translate_spec(m@),
{
    match m {
        ClientMsg::UserMessage { text, images } => {
            let ghost textv = text@;
            let mut items: Vec<InputItem> = Vec::new();
            items.push(InputItem::Text { text });
            match images {
                Some(imgs) => {
                    let ghost iview = vecs_view(imgs@);
                    let n = imgs.len();
                    let mut k: usize = 0;
                    while k < n
                        invariant
                            0 <= k <= n,
                            n == imgs@.len(),
                            iview == vecs_view(imgs@),
                            items@.map_values(|it: InputItem| it@) =~= seq![
                                InputItemS::Text { text: textv },
                            ].add(
                                iview.take(k as int).map_values(
                                    |u: Seq<u8>| InputItemS::Image { image_url: u },
                                ),
                            ),
                        decreases n - k,
                    {
                        let url = vstd::slice::slice_to_vec(imgs[k].as_slice());
                        proof {
                            assert(url@ == iview[k as int]);
                        }
                        let ghost prev = items@;
                        items.push(InputItem::Image { image_url: url });
                        proof {
                            assert(items@.map_values(|it: InputItem| it@) =~= prev.map_values(
                                |it: InputItem| it@,
                            ).push(InputItemS::Image { image_url: iview[k as int] }));
                            assert(iview.take(k as int + 1) =~= iview.take(k as int).push(
                                iview[k as int],
                            ));
                            assert(iview.take(k as int + 1).map_values(
                                |u: Seq<u8>| InputItemS::Image { image_url: u },
                            ) =~= iview.take(k as int).map_values(
                                |u: Seq<u8>| InputItemS::Image { image_url: u },
                            ).push(InputItemS::Image { image_url: iview[k as int] }));
                        }
                        k = k + 1;
                    }
                    proof {
                        assert(iview.take(iview.len() as int) =~= iview);
                    }
                },
                None => {
                    proof {
                        assert(items@.map_values(|it: InputItem| it@) =~= seq![
                            InputItemS::Text { text: textv },
                        ].add(Seq::<InputItemS>::empty()));
                    }
                },
            }
            RuntimeOp::UserInput { items }
        },
        ClientMsg::Interrupt => RuntimeOp::Interrupt,
        ClientMsg::ExecApproval { id, decision } => RuntimeOp::ExecApproval { id, decision },
        ClientMsg::PatchApproval { id, decision } => RuntimeOp::PatchApproval { id, decision },
        ClientMsg::Compact => RuntimeOp::Compact,
        ClientMsg::OverrideTurnContext { cwd, model, approval_policy, effort, sandbox_mode } => {
            let sandbox_policy = match sandbox_mode {
                Some(SandboxMode::ReadOnly) => Some(SandboxPolicy::ReadOnly),
                Some(SandboxMode::WorkspaceWrite) => Some(SandboxPolicy::WorkspaceWrite),
                Some(SandboxMode::DangerFullAccess) => Some(SandboxPolicy::DangerFullAccess),
                None => None,
            };
            RuntimeOp::OverrideTurnContext { cwd, model, approval_policy, effort, sandbox_policy }
        },
    }
}

} // verus!
