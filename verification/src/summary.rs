//! The JSON-output event processor: the headless front end that prints one
//! JSON line per event, suppresses streaming deltas, caches what the
//! session-configured event carries, and emits a session summary on
//! shutdown.
//!
//! Events arrive with their already serialized envelope (the producer
//! serializes each event exactly once); the processor decides what to
//! print and what to write, and hands those effects out as actions for
//! the unverified rim to perform.

use vstd::prelude::*;
use crate::json::JsonPairs;
use crate::json::JsonVal;
use crate::json::JsonValS;
use crate::json::pairs_view;
use crate::json::ser_obj;
use crate::json::ser_obj_exec;
use crate::codec::k_type;
use crate::codec::k_type_exec;
use crate::codec::k_model;
use crate::codec::k_model_exec;

verus! {

/// `"session_summary"` as bytes.
pub open spec fn v_session_summary() -> Seq<u8> {
    seq![115, 101, 115, 115, 105, 111, 110, 95, 115, 117, 109, 109, 97, 114, 121]
}

/// `"session_id"` as bytes.
pub open spec fn k_session_id() -> Seq<u8> {
    seq![115, 101, 115, 115, 105, 111, 110, 95, 105, 100]
}

/// `"rollout_path"` as bytes.
pub open spec fn k_rollout_path() -> Seq<u8> {
    seq![114, 111, 108, 108, 111, 117, 116, 95, 112, 97, 116, 104]
}

/// `"prompt"` as bytes.
pub open spec fn k_prompt() -> Seq<u8> {
    seq![112, 114, 111, 109, 112, 116]
}

/// What the processor makes of one event's message. The serialized
/// envelope travels beside it in `Event`.
pub enum EventMsg {
    AgentMessageDelta,
    AgentReasoningDelta,
    SessionConfigured { session_id: Vec<u8>, model: Vec<u8>, rollout_path: Vec<u8> },
    TaskComplete { last_agent_message: Option<Vec<u8>> },
    ShutdownComplete,
    Other,
}

/// Mathematical form of `EventMsg`.
#[verifier::ext_equal]
pub enum EventMsgS {
    AgentMessageDelta,
    AgentReasoningDelta,
    SessionConfigured { session_id: Seq<u8>, model: Seq<u8>, rollout_path: Seq<u8> },
    TaskComplete { last_agent_message: Option<Seq<u8>> },
    ShutdownComplete,
    Other,
}

impl View for EventMsg {
    type V = EventMsgS;

    open spec fn view(&self) -> EventMsgS {
        match self {
            EventMsg::AgentMessageDelta => EventMsgS::AgentMessageDelta,
            EventMsg::AgentReasoningDelta => EventMsgS::AgentReasoningDelta,
            EventMsg::SessionConfigured { session_id, model, rollout_path } =>
                EventMsgS::SessionConfigured {
                session_id: session_id@,
                model: model@,
                rollout_path: rollout_path@,
            },
            EventMsg::TaskComplete { last_agent_message } => EventMsgS::TaskComplete {
                last_agent_message: match last_agent_message {
                    Some(m) => Some(m@),
                    None => None,
                },
            },
            EventMsg::ShutdownComplete => EventMsgS::ShutdownComplete,
            EventMsg::Other => EventMsgS::Other,
        }
    }
}

/// One event as the processor sees it: the classified message and the
/// serialized envelope it arrived as.
pub struct Event {
    pub msg: EventMsg,
    pub json: Vec<u8>,
}

/// What the processor tells its caller to do next with the runtime.
#[derive(Clone, Copy, PartialEq, Eq, Structural, Debug)]
pub enum CodexStatus {
    Running,
    InitiateShutdown,
    Shutdown,
}

/// One effect the caller performs: print a line, write the last agent
/// message, or write the summary file.
#[derive(Debug, PartialEq, Eq)]
pub enum OutputAction {
    PrintLine(Vec<u8>),
    WriteLastMessage { path: Vec<u8>, message: Option<Vec<u8>> },
    WriteSummaryFile { path: Vec<u8>, json: Vec<u8> },
}

/// Mathematical form of `OutputAction`.
#[verifier::ext_equal]
pub enum OutputActionS {
    PrintLine(Seq<u8>),
    WriteLastMessage { path: Seq<u8>, message: Option<Seq<u8>> },
    WriteSummaryFile { path: Seq<u8>, json: Seq<u8> },
}

impl View for OutputAction {
    type V = OutputActionS;

    open spec fn view(&self) -> OutputActionS {
        match self {
            OutputAction::PrintLine(j) => OutputActionS::PrintLine(j@),
            OutputAction::WriteLastMessage { path, message } => OutputActionS::WriteLastMessage {
                path: path@,
                message: match message {
                    Some(m) => Some(m@),
                    None => None,
                },
            },
            OutputAction::WriteSummaryFile { path, json } => OutputActionS::WriteSummaryFile {
                path: path@,
                json: json@,
            },
        }
    }
}

/// The summary object emitted on shutdown:
/// `{"type":"session_summary","session_id":…,"rollout_path":…,"model":…}`.
pub open spec fn summary_json_spec(session_id: Seq<u8>, rollout_path: Seq<u8>, model: Seq<u8>)
    -> Seq<u8> {
    ser_obj(
        seq![
            (k_type(), JsonValS::Str(v_session_summary())),
            (k_session_id(), JsonValS::Str(session_id)),
            (k_rollout_path(), JsonValS::Str(rollout_path)),
            (k_model(), JsonValS::Str(model)),
        ],
    )
}

/// Mathematical state of the processor.
#[verifier::ext_equal]
pub struct ProcState {
    pub last_message_path: Option<Seq<u8>>,
    pub want_summary: bool,
    pub summary_file: Option<Seq<u8>>,
    pub session_id: Option<Seq<u8>>,
    pub rollout_path: Option<Seq<u8>>,
    pub model: Option<Seq<u8>>,
}

/// The event processor that prints JSON lines.
pub struct EventProcessorWithJsonOutput {
    last_message_path: Option<Vec<u8>>,
    want_summary: bool,
    summary_file: Option<Vec<u8>>,
    session_id: Option<Vec<u8>>,
    rollout_path: Option<Vec<u8>>,
    model: Option<Vec<u8>>,
}

impl View for EventProcessorWithJsonOutput {
    type V = ProcState;

    closed spec fn view(&self) -> ProcState {
        ProcState {
            last_message_path: match self.last_message_path {
                Some(p) => Some(p@),
                None => None,
            },
            want_summary: self.want_summary,
            summary_file: match self.summary_file {
                Some(p) => Some(p@),
                None => None,
            },
            session_id: match self.session_id {
                Some(p) => Some(p@),
                None => None,
            },
            rollout_path: match self.rollout_path {
                Some(p) => Some(p@),
                None => None,
            },
            model: match self.model {
                Some(p) => Some(p@),
                None => None,
            },
        }
    }
}

/// The summary actions emitted on shutdown, if the processor both wants a
/// summary and saw a session-configured event: print the summary line,
/// and write it to the summary file if one was named. A missing model is
/// written as the empty string.
pub open spec fn shutdown_actions(p: ProcState) -> Seq<OutputActionS> {
    if p.want_summary && p.session_id is Some && p.rollout_path is Some {
        let json = summary_json_spec(
            p.session_id->0,
            p.rollout_path->0,
            match p.model {
                Some(m) => m,
                None => Seq::empty(),
            },
        );
        match p.summary_file {
            Some(f) => seq![
                OutputActionS::PrintLine(json),
                OutputActionS::WriteSummaryFile { path: f, json },
            ],
            None => seq![OutputActionS::PrintLine(json)],
        }
    } else {
        Seq::empty()
    }
}

/// What one event does: the processor's next state, the status returned,
/// and the actions emitted.
pub open spec fn process_event_spec(p: ProcState, msg: EventMsgS, json: Seq<u8>) -> (
    ProcState,
    CodexStatus,
    Seq<OutputActionS>,
) {
    match msg {
        EventMsgS::AgentMessageDelta => (p, CodexStatus::Running, Seq::empty()),
        EventMsgS::AgentReasoningDelta => (p, CodexStatus::Running, Seq::empty()),
        EventMsgS::TaskComplete { last_agent_message } => (
            p,
            CodexStatus::InitiateShutdown,
            match p.last_message_path {
                Some(path) => seq![
                    OutputActionS::WriteLastMessage { path, message: last_agent_message },
                ],
                None => Seq::empty(),
            },
        ),
        EventMsgS::ShutdownComplete => (p, CodexStatus::Shutdown, shutdown_actions(p)),
        EventMsgS::SessionConfigured { session_id, model, rollout_path } => (
            ProcState {
                session_id: Some(session_id),
                rollout_path: Some(rollout_path),
                model: Some(model),
                ..p
            },
            CodexStatus::Running,
            seq![OutputActionS::PrintLine(json)],
        ),
        EventMsgS::Other => (p, CodexStatus::Running, seq![OutputActionS::PrintLine(json)]),
    }
}

impl EventProcessorWithJsonOutput {
    /// A fresh processor: where to write the last agent message, whether a
    /// summary is wanted, and where to write it; nothing cached yet.
    pub fn new(
        last_message_path: Option<Vec<u8>>,
        want_summary: bool,
        summary_file: Option<Vec<u8>>,
    ) -> (r: EventProcessorWithJsonOutput)
        ensures
            r@ == (ProcState {
                last_message_path: match last_message_path {
                    Some(p) => Some(p@),
                    None => None,
                },
                want_summary,
                summary_file: match summary_file {
                    Some(p) => Some(p@),
                    None => None,
                },
                session_id: None,
                rollout_path: None,
                model: None,
            }),
    {
        EventProcessorWithJsonOutput {
            last_message_path,
            want_summary,
            summary_file,
            session_id: None,
            rollout_path: None,
            model: None,
        }
    }

    /// Processes one event: suppresses streaming deltas, initiates
    /// shutdown on task completion (writing the last agent message if a
    /// path was named), emits the summary on shutdown completion, caches
    /// and passes through the session-configured event, and passes every
    /// other event through as its own JSON line.
    pub fn process_event(&mut self, ev: Event) -> (r: (CodexStatus, Vec<OutputAction>))
        ensures
            (final(self)@, r.0, r.1@.map_values(|a: OutputAction| a@)) == process_event_spec(
                old(self)@,
                ev.msg@,
                ev.json@,
            ),
    {
        let Event { msg, json } = ev;
        match msg {
            EventMsg::AgentMessageDelta => {
                let acts: Vec<OutputAction> = Vec::new();
                proof {
                    assert(acts@.map_values(|a: OutputAction| a@) =~= Seq::<
                        OutputActionS,
                    >::empty());
                }
                (CodexStatus::Running, acts)
            },
            EventMsg::AgentReasoningDelta => {
                let acts: Vec<OutputAction> = Vec::new();
                proof {
                    assert(acts@.map_values(|a: OutputAction| a@) =~= Seq::<
                        OutputActionS,
                    >::empty());
                }
                (CodexStatus::Running, acts)
            },
            EventMsg::TaskComplete { last_agent_message } => {
                let mut acts: Vec<OutputAction> = Vec::new();
                match &self.last_message_path {
                    Some(path) => {
                        let p = vstd::slice::slice_to_vec(path.as_slice());
                        acts.push(
                            OutputAction::WriteLastMessage { path: p, message: last_agent_message },
                        );
                        proof {
                            assert(acts@.map_values(|a: OutputAction| a@) =~= seq![acts@[0]@]);
                        }
                    },
                    None => {
                        proof {
                            assert(acts@.map_values(|a: OutputAction| a@) =~= Seq::<
                                OutputActionS,
                            >::empty());
                        }
                    },
                }
                (CodexStatus::InitiateShutdown, acts)
            },
            EventMsg::ShutdownComplete => {
                let acts = self.emit_summary();
                (CodexStatus::Shutdown, acts)
            },
            EventMsg::SessionConfigured { session_id, model, rollout_path } => {
                self.session_id = Some(session_id);
                self.rollout_path = Some(rollout_path);
                self.model = Some(model);
                let mut acts: Vec<OutputAction> = Vec::new();
                acts.push(OutputAction::PrintLine(json));
                proof {
                    assert(acts@.map_values(|a: OutputAction| a@) =~= seq![acts@[0]@]);
                }
                (CodexStatus::Running, acts)
            },
            EventMsg::Other => {
                let mut acts: Vec<OutputAction> = Vec::new();
                acts.push(OutputAction::PrintLine(json));
                proof {
                    assert(acts@.map_values(|a: OutputAction| a@) =~= seq![acts@[0]@]);
                }
                (CodexStatus::Running, acts)
            },
        }
    }

    /// Builds the shutdown summary actions of the current state.
    fn emit_summary(&self) -> (r: Vec<OutputAction>)
        ensures
            r@.map_values(|a: OutputAction| a@) == shutdown_actions(self@),
    {
        let mut acts: Vec<OutputAction> = Vec::new();
        proof {
            assert(acts@.map_values(|a: OutputAction| a@) =~= Seq::<OutputActionS>::empty());
        }
        if !self.want_summary {
            return acts;
        }
        let sid = match &self.session_id {
            Some(s) => s,
            None => {
                return acts;
            },
        };
        let rp = match &self.rollout_path {
            Some(r) => r,
            None => {
                return acts;
            },
        };
        let json = self.summary_json(sid, rp);
        match &self.summary_file {
            Some(f) => {
                acts.push(OutputAction::PrintLine(vstd::slice::slice_to_vec(json.as_slice())));
                acts.push(
                    OutputAction::WriteSummaryFile {
                        path: vstd::slice::slice_to_vec(f.as_slice()),
                        json,
                    },
                );
                proof {
                    assert(acts@.map_values(|a: OutputAction| a@) =~= seq![acts@[0]@, acts@[1]@]);
                }
            },
            None => {
                acts.push(OutputAction::PrintLine(json));
                proof {
                    assert(acts@.map_values(|a: OutputAction| a@) =~= seq![acts@[0]@]);
                }
            },
        }
        acts
    }

    /// Writes the summary object for the cached session.
    fn summary_json(&self, sid: &Vec<u8>, rp: &Vec<u8>) -> (r: Vec<u8>)
        ensures
            r@ == summary_json_spec(
                sid@,
                rp@,
                match self@.model {
                    Some(m) => m,
                    None => Seq::empty(),
                },
            ),
    {
        let ghost sidv = sid@;
        let ghost rpv = rp@;
        let ghost mseq: Seq<u8> = match self@.model {
            Some(m) => m,
            None => Seq::empty(),
        };
        let mut ms: JsonPairs = Vec::new();
        let v_sum: Vec<u8> = vec![
            115, 101, 115, 115, 105, 111, 110, 95, 115, 117, 109, 109, 97, 114, 121,
        ];
        let k_sid: Vec<u8> = vec![115, 101, 115, 115, 105, 111, 110, 95, 105, 100];
        let k_rp: Vec<u8> = vec![114, 111, 108, 108, 111, 117, 116, 95, 112, 97, 116, 104];
        ms.push((k_type_exec(), JsonVal::Str(v_sum)));
        ms.push((k_sid, JsonVal::Str(vstd::slice::slice_to_vec(sid.as_slice()))));
        ms.push((k_rp, JsonVal::Str(vstd::slice::slice_to_vec(rp.as_slice()))));
        let model: Vec<u8> = match &self.model {
            Some(m) => vstd::slice::slice_to_vec(m.as_slice()),
            None => Vec::new(),
        };
        ms.push((k_model_exec(), JsonVal::Str(model)));
        proof {
            assert(pairs_view(ms) =~= seq![
                (k_type(), JsonValS::Str(v_session_summary())),
                (k_session_id(), JsonValS::Str(sidv)),
                (k_rollout_path(), JsonValS::Str(rpv)),
                (k_model(), JsonValS::Str(mseq)),
            ]);
        }
        let r = ser_obj_exec(&ms);
        proof {
            assert(summary_json_spec(sidv, rpv, mseq) == ser_obj(
                seq![
                    (k_type(), JsonValS::Str(v_session_summary())),
                    (k_session_id(), JsonValS::Str(sidv)),
                    (k_rollout_path(), JsonValS::Str(rpv)),
                    (k_model(), JsonValS::Str(mseq)),
                ],
            ));
            assert(r@ == summary_json_spec(sidv, rpv, mseq));
        }
        r
    }

    /// Prints the configuration summary: one JSON object of the given
    /// entries in their given order, then `{"prompt":…}`.
    pub fn print_config_summary(&self, entries: Vec<(Vec<u8>, Vec<u8>)>, prompt: Vec<u8>) -> (r:
        Vec<OutputAction>)
        ensures
            r@.map_values(|a: OutputAction| a@) == seq![
                OutputActionS::PrintLine(ser_obj(entries_pairs(entries@))),
                OutputActionS::PrintLine(
                    ser_obj(seq![(k_prompt(), JsonValS::Str(prompt@))]),
                ),
            ],
    {
        let ghost entv = entries@;
        let ghost promv = prompt@;
        let mut ms: JsonPairs = Vec::new();
        let n = entries.len();
        let mut entries = entries;
        let mut i: usize = 0;
        while i < n
            invariant
                0 <= i <= n,
                n == entries@.len(),
                entries@ == entv,
                pairs_view(ms) =~= entries_pairs(entv.take(i as int)),
            decreases n - i,
        {
            let ghost prev = pairs_view(ms);
            let k = vstd::slice::slice_to_vec(entries[i].0.as_slice());
            let v = vstd::slice::slice_to_vec(entries[i].1.as_slice());
            ms.push((k, JsonVal::Str(v)));
            proof {
                assert(pairs_view(ms) =~= prev.push((entv[i as int].0@, JsonValS::Str(
                    entv[i as int].1@,
                ))));
                assert(entries_pairs(entv.take(i as int + 1)) =~= entries_pairs(
                    entv.take(i as int),
                ).push((entv[i as int].0@, JsonValS::Str(entv[i as int].1@))));
            }
            i = i + 1;
        }
        proof {
            assert(entv.take(n as int) =~= entv);
        }
        let first = ser_obj_exec(&ms);
        let mut pm: JsonPairs = Vec::new();
        let k_pr: Vec<u8> = vec![112, 114, 111, 109, 112, 116];
        pm.push((k_pr, JsonVal::Str(prompt)));
        proof {
            assert(pairs_view(pm) =~= seq![(k_prompt(), JsonValS::Str(promv))]);
        }
        let second = ser_obj_exec(&pm);
        let mut acts: Vec<OutputAction> = Vec::new();
        acts.push(OutputAction::PrintLine(first));
        acts.push(OutputAction::PrintLine(second));
        proof {
            assert(acts@.map_values(|a: OutputAction| a@) =~= seq![acts@[0]@, acts@[1]@]);
        }
        acts
    }
}

/// The members of the configuration-summary object: each entry as one
/// string member, in the given order.
pub open spec fn entries_pairs(entries: Seq<(Vec<u8>, Vec<u8>)>) -> Seq<(Seq<u8>, JsonValS)> {
    entries.map_values(|e: (Vec<u8>, Vec<u8>)| (e.0@, JsonValS::Str(e.1@)))
}

} // verus!
