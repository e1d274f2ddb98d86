//! The JSON codec of the client-operation schema: how one WebSocket text
//! frame decodes into a `ClientMsg`, and the canonical form a well-formed
//! client writes.
//!
//! Decoding reads the parsed object's members by key, takes the
//! discriminator from `type`, ignores unknown keys, treats `null` as an
//! absent optional field, and fails on a missing required field, an unknown
//! variant or decision, or a wrongly typed value. Encoding writes the
//! members in a fixed order with absent optional fields left out; the
//! round-trip law at the end proves that decoding a canonically written
//! message gives the message back.

use vstd::prelude::*;
use crate::json::JsonPairs;
use crate::json::JsonPairsS;
use crate::json::JsonVal;
use crate::json::JsonValS;
use crate::json::lemma_ser_obj_parses;
use crate::json::pairs_view;
use crate::json::parse_json_obj;
use crate::json::parse_json_obj_exec;
use crate::json::ser_obj;
use crate::json::ser_obj_exec;
use crate::json::all_delimited;
use crate::json::vecs_view;
use crate::ops::AskForApproval;
use crate::ops::ClientMsg;
use crate::ops::ClientMsgS;
use crate::ops::ReasoningEffort;
use crate::ops::ReviewDecision;
use crate::ops::SandboxMode;

verus! {

/// `"type"` as bytes.
pub open spec fn k_type() -> Seq<u8> {
    seq![116, 121, 112, 101]
}

/// `"text"` as bytes.
pub open spec fn k_text() -> Seq<u8> {
    seq![116, 101, 120, 116]
}

/// `"images"` as bytes.
pub open spec fn k_images() -> Seq<u8> {
    seq![105, 109, 97, 103, 101, 115]
}

/// `"id"` as bytes.
pub open spec fn k_id() -> Seq<u8> {
    seq![105, 100]
}

/// `"decision"` as bytes.
pub open spec fn k_decision() -> Seq<u8> {
    seq![100, 101, 99, 105, 115, 105, 111, 110]
}

/// `"cwd"` as bytes.
pub open spec fn k_cwd() -> Seq<u8> {
    seq![99, 119, 100]
}

/// `"model"` as bytes.
pub open spec fn k_model() -> Seq<u8> {
    seq![109, 111, 100, 101, 108]
}

/// `"approval_policy"` as bytes.
pub open spec fn k_approval_policy() -> Seq<u8> {
    seq![97, 112, 112, 114, 111, 118, 97, 108, 95, 112, 111, 108, 105, 99, 121]
}

/// `"effort"` as bytes.
pub open spec fn k_effort() -> Seq<u8> {
    seq![101, 102, 102, 111, 114, 116]
}

/// `"sandbox_mode"` as bytes.
pub open spec fn k_sandbox_mode() -> Seq<u8> {
    seq![115, 97, 110, 100, 98, 111, 120, 95, 109, 111, 100, 101]
}

/// `"user_message"` as bytes.
pub open spec fn t_user_message() -> Seq<u8> {
    seq![117, 115, 101, 114, 95, 109, 101, 115, 115, 97, 103, 101]
}

/// `"interrupt"` as bytes.
pub open spec fn t_interrupt() -> Seq<u8> {
    seq![105, 110, 116, 101, 114, 114, 117, 112, 116]
}

/// `"exec_approval"` as bytes.
pub open spec fn t_exec_approval() -> Seq<u8> {
    seq![101, 120, 101, 99, 95, 97, 112, 112, 114, 111, 118, 97, 108]
}

/// `"patch_approval"` as bytes.
pub open spec fn t_patch_approval() -> Seq<u8> {
    seq![112, 97, 116, 99, 104, 95, 97, 112, 112, 114, 111, 118, 97, 108]
}

/// `"compact"` as bytes.
pub open spec fn t_compact() -> Seq<u8> {
    seq![99, 111, 109, 112, 97, 99, 116]
}

/// `"override_turn_context"` as bytes.
pub open spec fn t_override() -> Seq<u8> {
    seq![111, 118, 101, 114, 114, 105, 100, 101, 95, 116, 117, 114, 110, 95, 99, 111, 110, 116, 101, 120, 116]
}

/// `"approved"` as bytes.
pub open spec fn d_approved() -> Seq<u8> {
    seq![97, 112, 112, 114, 111, 118, 101, 100]
}

/// `"approved_for_session"` as bytes.
pub open spec fn d_approved_for_session() -> Seq<u8> {
    seq![97, 112, 112, 114, 111, 118, 101, 100, 95, 102, 111, 114, 95, 115, 101, 115, 115, 105, 111, 110]
}

/// `"denied"` as bytes.
pub open spec fn d_denied() -> Seq<u8> {
    seq![100, 101, 110, 105, 101, 100]
}

/// `"abort"` as bytes.
pub open spec fn d_abort() -> Seq<u8> {
    seq![97, 98, 111, 114, 116]
}

/// `"untrusted"` as bytes.
pub open spec fn p_untrusted() -> Seq<u8> {
    seq![117, 110, 116, 114, 117, 115, 116, 101, 100]
}

/// `"on-failure"` as bytes.
pub open spec fn p_on_failure() -> Seq<u8> {
    seq![111, 110, 45, 102, 97, 105, 108, 117, 114, 101]
}

/// `"on-request"` as bytes.
pub open spec fn p_on_request() -> Seq<u8> {
    seq![111, 110, 45, 114, 101, 113, 117, 101, 115, 116]
}

/// `"never"` as bytes.
pub open spec fn p_never() -> Seq<u8> {
    seq![110, 101, 118, 101, 114]
}

/// `"minimal"` as bytes.
pub open spec fn e_minimal() -> Seq<u8> {
    seq![109, 105, 110, 105, 109, 97, 108]
}

/// `"low"` as bytes.
pub open spec fn e_low() -> Seq<u8> {
    seq![108, 111, 119]
}

/// `"medium"` as bytes.
pub open spec fn e_medium() -> Seq<u8> {
    seq![109, 101, 100, 105, 117, 109]
}

/// `"high"` as bytes.
pub open spec fn e_high() -> Seq<u8> {
    seq![104, 105, 103, 104]
}

/// `"read-only"` as bytes.
pub open spec fn s_read_only() -> Seq<u8> {
    seq![114, 101, 97, 100, 45, 111, 110, 108, 121]
}

/// `"workspace-write"` as bytes.
pub open spec fn s_workspace_write() -> Seq<u8> {
    seq![119, 111, 114, 107, 115, 112, 97, 99, 101, 45, 119, 114, 105, 116, 101]
}

/// `"danger-full-access"` as bytes.
pub open spec fn s_danger_full_access() -> Seq<u8> {
    seq![100, 97, 110, 103, 101, 114, 45, 102, 117, 108, 108, 45, 97, 99, 99, 101, 115, 115]
}

/// `"type"` as bytes, at run time.
pub fn k_type_exec() -> (r: Vec<u8>)
    ensures
        r@ == k_type(),
{
    let v: Vec<u8> = vec![116, 121, 112, 101];
    proof {
        assert(v@ =~= k_type());
    }
    v
}

/// `"text"` as bytes, at run time.
pub fn k_text_exec() -> (r: Vec<u8>)
    ensures
        r@ == k_text(),
{
    let v: Vec<u8> = vec![116, 101, 120, 116];
    proof {
        assert(v@ =~= k_text());
    }
    v
}

/// `"images"` as bytes, at run time.
pub fn k_images_exec() -> (r: Vec<u8>)
    ensures
        r@ == k_images(),
{
    let v: Vec<u8> = vec![105, 109, 97, 103, 101, 115];
    proof {
        assert(v@ =~= k_images());
    }
    v
}

/// `"id"` as bytes, at run time.
pub fn k_id_exec() -> (r: Vec<u8>)
    ensures
        r@ == k_id(),
{
    let v: Vec<u8> = vec![105, 100];
    proof {
        assert(v@ =~= k_id());
    }
    v
}

/// `"decision"` as bytes, at run time.
pub fn k_decision_exec() -> (r: Vec<u8>)
    ensures
        r@ == k_decision(),
{
    let v: Vec<u8> = vec![100, 101, 99, 105, 115, 105, 111, 110];
    proof {
        assert(v@ =~= k_decision());
    }
    v
}

/// `"cwd"` as bytes, at run time.
pub fn k_cwd_exec() -> (r: Vec<u8>)
    ensures
        r@ == k_cwd(),
{
    let v: Vec<u8> = vec![99, 119, 100];
    proof {
        assert(v@ =~= k_cwd());
    }
    v
}

/// `"model"` as bytes, at run time.
pub fn k_model_exec() -> (r: Vec<u8>)
    ensures
        r@ == k_model(),
{
    let v: Vec<u8> = vec![109, 111, 100, 101, 108];
    proof {
        assert(v@ =~= k_model());
    }
    v
}

/// `"approval_policy"` as bytes, at run time.
pub fn k_approval_policy_exec() -> (r: Vec<u8>)
    ensures
        r@ == k_approval_policy(),
{
    let v: Vec<u8> = vec![97, 112, 112, 114, 111, 118, 97, 108, 95, 112, 111, 108, 105, 99, 121];
    proof {
        assert(v@ =~= k_approval_policy());
    }
    v
}

/// `"effort"` as bytes, at run time.
pub fn k_effort_exec() -> (r: Vec<u8>)
    ensures
        r@ == k_effort(),
{
    let v: Vec<u8> = vec![101, 102, 102, 111, 114, 116];
    proof {
        assert(v@ =~= k_effort());
    }
    v
}

/// `"sandbox_mode"` as bytes, at run time.
pub fn k_sandbox_mode_exec() -> (r: Vec<u8>)
    ensures
        r@ == k_sandbox_mode(),
{
    let v: Vec<u8> = vec![115, 97, 110, 100, 98, 111, 120, 95, 109, 111, 100, 101];
    proof {
        assert(v@ =~= k_sandbox_mode());
    }
    v
}

/// `"user_message"` as bytes, at run time.
pub fn t_user_message_exec() -> (r: Vec<u8>)
    ensures
        r@ == t_user_message(),
{
    let v: Vec<u8> = vec![117, 115, 101, 114, 95, 109, 101, 115, 115, 97, 103, 101];
    proof {
        assert(v@ =~= t_user_message());
    }
    v
}

/// `"interrupt"` as bytes, at run time.
pub fn t_interrupt_exec() -> (r: Vec<u8>)
    ensures
        r@ == t_interrupt(),
{
    let v: Vec<u8> = vec![105, 110, 116, 101, 114, 114, 117, 112, 116];
    proof {
        assert(v@ =~= t_interrupt());
    }
    v
}

/// `"exec_approval"` as bytes, at run time.
pub fn t_exec_approval_exec() -> (r: Vec<u8>)
    ensures
        r@ == t_exec_approval(),
{
    let v: Vec<u8> = vec![101, 120, 101, 99, 95, 97, 112, 112, 114, 111, 118, 97, 108];
    proof {
        assert(v@ =~= t_exec_approval());
    }
    v
}

/// `"patch_approval"` as bytes, at run time.
pub fn t_patch_approval_exec() -> (r: Vec<u8>)
    ensures
        r@ == t_patch_approval(),
{
    let v: Vec<u8> = vec![112, 97, 116, 99, 104, 95, 97, 112, 112, 114, 111, 118, 97, 108];
    proof {
        assert(v@ =~= t_patch_approval());
    }
    v
}

/// `"compact"` as bytes, at run time.
pub fn t_compact_exec() -> (r: Vec<u8>)
    ensures
        r@ == t_compact(),
{
    let v: Vec<u8> = vec![99, 111, 109, 112, 97, 99, 116];
    proof {
        assert(v@ =~= t_compact());
    }
    v
}

/// `"override_turn_context"` as bytes, at run time.
pub fn t_override_exec() -> (r: Vec<u8>)
    ensures
        r@ == t_override(),
{
    let v: Vec<u8> = vec![111, 118, 101, 114, 114, 105, 100, 101, 95, 116, 117, 114, 110, 95, 99, 111, 110, 116, 101, 120, 116];
    proof {
        assert(v@ =~= t_override());
    }
    v
}

/// `"approved"` as bytes, at run time.
pub fn d_approved_exec() -> (r: Vec<u8>)
    ensures
        r@ == d_approved(),
{
    let v: Vec<u8> = vec![97, 112, 112, 114, 111, 118, 101, 100];
    proof {
        assert(v@ =~= d_approved());
    }
    v
}

/// `"approved_for_session"` as bytes, at run time.
pub fn d_approved_for_session_exec() -> (r: Vec<u8>)
    ensures
        r@ == d_approved_for_session(),
{
    let v: Vec<u8> = vec![97, 112, 112, 114, 111, 118, 101, 100, 95, 102, 111, 114, 95, 115, 101, 115, 115, 105, 111, 110];
    proof {
        assert(v@ =~= d_approved_for_session());
    }
    v
}

/// `"denied"` as bytes, at run time.
pub fn d_denied_exec() -> (r: Vec<u8>)
    ensures
        r@ == d_denied(),
{
    let v: Vec<u8> = vec![100, 101, 110, 105, 101, 100];
    proof {
        assert(v@ =~= d_denied());
    }
    v
}

/// `"abort"` as bytes, at run time.
pub fn d_abort_exec() -> (r: Vec<u8>)
    ensures
        r@ == d_abort(),
{
    let v: Vec<u8> = vec![97, 98, 111, 114, 116];
    proof {
        assert(v@ =~= d_abort());
    }
    v
}

/// `"untrusted"` as bytes, at run time.
pub fn p_untrusted_exec() -> (r: Vec<u8>)
    ensures
        r@ == p_untrusted(),
{
    let v: Vec<u8> = vec![117, 110, 116, 114, 117, 115, 116, 101, 100];
    proof {
        assert(v@ =~= p_untrusted());
    }
    v
}

/// `"on-failure"` as bytes, at run time.
pub fn p_on_failure_exec() -> (r: Vec<u8>)
    ensures
        r@ == p_on_failure(),
{
    let v: Vec<u8> = vec![111, 110, 45, 102, 97, 105, 108, 117, 114, 101];
    proof {
        assert(v@ =~= p_on_failure());
    }
    v
}

/// `"on-request"` as bytes, at run time.
pub fn p_on_request_exec() -> (r: Vec<u8>)
    ensures
        r@ == p_on_request(),
{
    let v: Vec<u8> = vec![111, 110, 45, 114, 101, 113, 117, 101, 115, 116];
    proof {
        assert(v@ =~= p_on_request());
    }
    v
}

/// `"never"` as bytes, at run time.
pub fn p_never_exec() -> (r: Vec<u8>)
    ensures
        r@ == p_never(),
{
    let v: Vec<u8> = vec![110, 101, 118, 101, 114];
    proof {
        assert(v@ =~= p_never());
    }
    v
}

/// `"minimal"` as bytes, at run time.
pub fn e_minimal_exec() -> (r: Vec<u8>)
    ensures
        r@ == e_minimal(),
{
    let v: Vec<u8> = vec![109, 105, 110, 105, 109, 97, 108];
    proof {
        assert(v@ =~= e_minimal());
    }
    v
}

/// `"low"` as bytes, at run time.
pub fn e_low_exec() -> (r: Vec<u8>)
    ensures
        r@ == e_low(),
{
    let v: Vec<u8> = vec![108, 111, 119];
    proof {
        assert(v@ =~= e_low());
    }
    v
}

/// `"medium"` as bytes, at run time.
pub fn e_medium_exec() -> (r: Vec<u8>)
    ensures
        r@ == e_medium(),
{
    let v: Vec<u8> = vec![109, 101, 100, 105, 117, 109];
    proof {
        assert(v@ =~= e_medium());
    }
    v
}

/// `"high"` as bytes, at run time.
pub fn e_high_exec() -> (r: Vec<u8>)
    ensures
        r@ == e_high(),
{
    let v: Vec<u8> = vec![104, 105, 103, 104];
    proof {
        assert(v@ =~= e_high());
    }
    v
}

/// `"read-only"` as bytes, at run time.
pub fn s_read_only_exec() -> (r: Vec<u8>)
    ensures
        r@ == s_read_only(),
{
    let v: Vec<u8> = vec![114, 101, 97, 100, 45, 111, 110, 108, 121];
    proof {
        assert(v@ =~= s_read_only());
    }
    v
}

/// `"workspace-write"` as bytes, at run time.
pub fn s_workspace_write_exec() -> (r: Vec<u8>)
    ensures
        r@ == s_workspace_write(),
{
    let v: Vec<u8> = vec![119, 111, 114, 107, 115, 112, 97, 99, 101, 45, 119, 114, 105, 116, 101];
    proof {
        assert(v@ =~= s_workspace_write());
    }
    v
}

/// `"danger-full-access"` as bytes, at run time.
pub fn s_danger_full_access_exec() -> (r: Vec<u8>)
    ensures
        r@ == s_danger_full_access(),
{
    let v: Vec<u8> = vec![100, 97, 110, 103, 101, 114, 45, 102, 117, 108, 108, 45, 97, 99, 99, 101, 115, 115];
    proof {
        assert(v@ =~= s_danger_full_access());
    }
    v
}

/// First value stored under a key, in source order.
pub open spec fn lookup(ms: JsonPairsS, k: Seq<u8>) -> Option<JsonValS>
    decreases ms.len(),
{
    if ms.len() == 0 {
        None
    } else if ms[0].0 == k {
        Some(ms[0].1)
    } else {
        lookup(ms.skip(1), k)
    }
}

/// Appending a member under another key leaves a lookup unchanged.
pub proof fn lemma_lookup_push_miss(ms: JsonPairsS, pr: (Seq<u8>, JsonValS), k: Seq<u8>)
    requires
        pr.0 != k,
    ensures
        lookup(ms.push(pr), k) == lookup(ms, k),
    decreases ms.len(),
{
    if ms.len() == 0 {
        assert(ms.push(pr)[0] == pr);
        assert(ms.push(pr).skip(1) =~= Seq::<(Seq<u8>, JsonValS)>::empty());
        assert(lookup(Seq::<(Seq<u8>, JsonValS)>::empty(), k) is None);
    } else {
        assert(ms.push(pr)[0] == ms[0]);
        if ms[0].0 == k {
        } else {
            assert(ms.push(pr).skip(1) =~= ms.skip(1).push(pr));
            lemma_lookup_push_miss(ms.skip(1), pr, k);
        }
    }
}

/// Appending a member under a key not yet present makes its lookup find it.
pub proof fn lemma_lookup_push_hit(ms: JsonPairsS, pr: (Seq<u8>, JsonValS))
    requires
        lookup(ms, pr.0) is None,
    ensures
        lookup(ms.push(pr), pr.0) == Some(pr.1),
    decreases ms.len(),
{
    if ms.len() == 0 {
        assert(ms.push(pr)[0] == pr);
    } else {
        assert(ms.push(pr)[0] == ms[0]);
        assert(ms[0].0 != pr.0);
        assert(ms.push(pr).skip(1) =~= ms.skip(1).push(pr));
        lemma_lookup_push_hit(ms.skip(1), pr);
    }
}

/// A required string field: its value, or nothing if absent or not a
/// string.
pub open spec fn get_str(ms: JsonPairsS, k: Seq<u8>) -> Option<Seq<u8>> {
    match lookup(ms, k) {
        Some(JsonValS::Str(t)) => Some(t),
        _ => None,
    }
}

/// An optional string field: the outer `None` is a type error, the inner
/// `None` an absent or `null` field.
pub open spec fn opt_str(ms: JsonPairsS, k: Seq<u8>) -> Option<Option<Seq<u8>>> {
    match lookup(ms, k) {
        None => Some(None),
        Some(JsonValS::Null) => Some(None),
        Some(JsonValS::Str(t)) => Some(Some(t)),
        Some(_) => None,
    }
}

/// An optional array-of-strings field, read as `opt_str` is.
pub open spec fn opt_arr(ms: JsonPairsS, k: Seq<u8>) -> Option<Option<Seq<Seq<u8>>>> {
    match lookup(ms, k) {
        None => Some(None),
        Some(JsonValS::Null) => Some(None),
        Some(JsonValS::StrArr(a)) => Some(Some(a)),
        Some(_) => None,
    }
}

/// The wire name of a review decision.
pub open spec fn enc_decision(d: ReviewDecision) -> Seq<u8> {
    match d {
        ReviewDecision::Approved => d_approved(),
        ReviewDecision::ApprovedForSession => d_approved_for_session(),
        ReviewDecision::Denied => d_denied(),
        ReviewDecision::Abort => d_abort(),
    }
}

/// The review decision a wire name denotes.
pub open spec fn dec_decision(t: Seq<u8>) -> Option<ReviewDecision> {
    if t == d_approved() {
        Some(ReviewDecision::Approved)
    } else if t == d_approved_for_session() {
        Some(ReviewDecision::ApprovedForSession)
    } else if t == d_denied() {
        Some(ReviewDecision::Denied)
    } else if t == d_abort() {
        Some(ReviewDecision::Abort)
    } else {
        None
    }
}

/// The wire name of an approval policy.
pub open spec fn enc_policy(p: AskForApproval) -> Seq<u8> {
    match p {
        AskForApproval::Untrusted => p_untrusted(),
        AskForApproval::OnFailure => p_on_failure(),
        AskForApproval::OnRequest => p_on_request(),
        AskForApproval::Never => p_never(),
    }
}

/// The approval policy a wire name denotes.
pub open spec fn dec_policy(t: Seq<u8>) -> Option<AskForApproval> {
    if t == p_untrusted() {
        Some(AskForApproval::Untrusted)
    } else if t == p_on_failure() {
        Some(AskForApproval::OnFailure)
    } else if t == p_on_request() {
        Some(AskForApproval::OnRequest)
    } else if t == p_never() {
        Some(AskForApproval::Never)
    } else {
        None
    }
}

/// The wire name of a reasoning effort.
pub open spec fn enc_effort(e: ReasoningEffort) -> Seq<u8> {
    match e {
        ReasoningEffort::Minimal => e_minimal(),
        ReasoningEffort::Low => e_low(),
        ReasoningEffort::Medium => e_medium(),
        ReasoningEffort::High => e_high(),
    }
}

/// The reasoning effort a wire name denotes.
pub open spec fn dec_effort(t: Seq<u8>) -> Option<ReasoningEffort> {
    if t == e_minimal() {
        Some(ReasoningEffort::Minimal)
    } else if t == e_low() {
        Some(ReasoningEffort::Low)
    } else if t == e_medium() {
        Some(ReasoningEffort::Medium)
    } else if t == e_high() {
        Some(ReasoningEffort::High)
    } else {
        None
    }
}

/// The wire name of a sandbox mode.
pub open spec fn enc_sandbox(s: SandboxMode) -> Seq<u8> {
    match s {
        SandboxMode::ReadOnly => s_read_only(),
        SandboxMode::WorkspaceWrite => s_workspace_write(),
        SandboxMode::DangerFullAccess => s_danger_full_access(),
    }
}

/// The sandbox mode a wire name denotes.
pub open spec fn dec_sandbox(t: Seq<u8>) -> Option<SandboxMode> {
    if t == s_read_only() {
        Some(SandboxMode::ReadOnly)
    } else if t == s_workspace_write() {
        Some(SandboxMode::WorkspaceWrite)
    } else if t == s_danger_full_access() {
        Some(SandboxMode::DangerFullAccess)
    } else {
        None
    }
}

/// An optional enum field under `k`, decoded by `dec` at the call site:
/// stated separately for each enum below.
pub open spec fn opt_policy(ms: JsonPairsS) -> Option<Option<AskForApproval>> {
    match lookup(ms, k_approval_policy()) {
        None => Some(None),
        Some(JsonValS::Null) => Some(None),
        Some(JsonValS::Str(t)) => match dec_policy(t) {
            Some(p) => Some(Some(p)),
            None => None,
        },
        Some(_) => None,
    }
}

/// An optional reasoning-effort field.
pub open spec fn opt_effort(ms: JsonPairsS) -> Option<Option<ReasoningEffort>> {
    match lookup(ms, k_effort()) {
        None => Some(None),
        Some(JsonValS::Null) => Some(None),
        Some(JsonValS::Str(t)) => match dec_effort(t) {
            Some(e) => Some(Some(e)),
            None => None,
        },
        Some(_) => None,
    }
}

/// An optional sandbox-mode field.
pub open spec fn opt_sandbox(ms: JsonPairsS) -> Option<Option<SandboxMode>> {
    match lookup(ms, k_sandbox_mode()) {
        None => Some(None),
        Some(JsonValS::Null) => Some(None),
        Some(JsonValS::Str(t)) => match dec_sandbox(t) {
            Some(s) => Some(Some(s)),
            None => None,
        },
        Some(_) => None,
    }
}

/// Decodes an object's members into a client message: the discriminator
/// under `type` picks the variant, required fields must be present as
/// strings, optional fields may be absent or `null`, unknown keys are
/// ignored, and anything else fails.
pub open spec fn decode_msg(ms: JsonPairsS) -> Option<ClientMsgS> {
    match get_str(ms, k_type()) {
        None => None,
        Some(t) => if t == t_user_message() {
            match get_str(ms, k_text()) {
                Some(text) => match opt_arr(ms, k_images()) {
                    Some(images) => Some(ClientMsgS::UserMessage { text, images }),
                    None => None,
                },
                None => None,
            }
        } else if t == t_interrupt() {
            Some(ClientMsgS::Interrupt)
        } else if t == t_exec_approval() || t == t_patch_approval() {
            match get_str(ms, k_id()) {
                Some(id) => match get_str(ms, k_decision()) {
                    Some(d) => match dec_decision(d) {
                        Some(decision) => if t == t_exec_approval() {
                            Some(ClientMsgS::ExecApproval { id, decision })
                        } else {
                            Some(ClientMsgS::PatchApproval { id, decision })
                        },
                        None => None,
                    },
                    None => None,
                },
                None => None,
            }
        } else if t == t_compact() {
            Some(ClientMsgS::Compact)
        } else if t == t_override() {
            match opt_str(ms, k_cwd()) {
                Some(cwd) => match opt_str(ms, k_model()) {
                    Some(model) => match opt_policy(ms) {
                        Some(approval_policy) => match opt_effort(ms) {
                            Some(effort) => match opt_sandbox(ms) {
                                Some(sandbox_mode) => Some(
                                    ClientMsgS::OverrideTurnContext {
                                        cwd,
                                        model,
                                        approval_policy,
                                        effort,
                                        sandbox_mode,
                                    },
                                ),
                                None => None,
                            },
                            None => None,
                        },
                        None => None,
                    },
                    None => None,
                },
                None => None,
            }
        } else {
            None
        },
    }
}

/// Appends a member if one is given.
pub open spec fn opt_push(ms: JsonPairsS, o: Option<(Seq<u8>, JsonValS)>) -> JsonPairsS {
    match o {
        Some(pr) => ms.push(pr),
        None => ms,
    }
}

/// An optional string member under `k`.
pub open spec fn opt_member(k: Seq<u8>, o: Option<Seq<u8>>) -> Option<(Seq<u8>, JsonValS)> {
    match o {
        Some(t) => Some((k, JsonValS::Str(t))),
        None => None,
    }
}

/// The canonical member list a well-formed client writes for a message:
/// the discriminator first, then the variant's fields in a fixed order,
/// absent optional fields left out.
pub open spec fn encode_msg(m: ClientMsgS) -> JsonPairsS {
    match m {
        ClientMsgS::UserMessage { text, images } => {
            let base = seq![
                (k_type(), JsonValS::Str(t_user_message())),
                (k_text(), JsonValS::Str(text)),
            ];
            opt_push(
                base,
                match images {
                    Some(a) => Some((k_images(), JsonValS::StrArr(a))),
                    None => None,
                },
            )
        },
        ClientMsgS::Interrupt => seq![(k_type(), JsonValS::Str(t_interrupt()))],
        ClientMsgS::ExecApproval { id, decision } => seq![
            (k_type(), JsonValS::Str(t_exec_approval())),
            (k_id(), JsonValS::Str(id)),
            (k_decision(), JsonValS::Str(enc_decision(decision))),
        ],
        ClientMsgS::PatchApproval { id, decision } => seq![
            (k_type(), JsonValS::Str(t_patch_approval())),
            (k_id(), JsonValS::Str(id)),
            (k_decision(), JsonValS::Str(enc_decision(decision))),
        ],
        ClientMsgS::Compact => seq![(k_type(), JsonValS::Str(t_compact()))],
        ClientMsgS::OverrideTurnContext { cwd, model, approval_policy, effort, sandbox_mode } => {
            let p0 = seq![(k_type(), JsonValS::Str(t_override()))];
            let p1 = opt_push(p0, opt_member(k_cwd(), cwd));
            let p2 = opt_push(p1, opt_member(k_model(), model));
            let p3 = opt_push(
                p2,
                opt_member(
                    k_approval_policy(),
                    match approval_policy {
                        Some(p) => Some(enc_policy(p)),
                        None => None,
                    },
                ),
            );
            let p4 = opt_push(
                p3,
                opt_member(
                    k_effort(),
                    match effort {
                        Some(e) => Some(enc_effort(e)),
                        None => None,
                    },
                ),
            );
            opt_push(
                p4,
                opt_member(
                    k_sandbox_mode(),
                    match sandbox_mode {
                        Some(s) => Some(enc_sandbox(s)),
                        None => None,
                    },
                ),
            )
        },
    }
}

/// What a byte string means as one inbound frame: the whole parse, from
/// bytes to a client message.
pub open spec fn parse_client_msg_spec(s: Seq<u8>) -> Option<ClientMsgS> {
    match parse_json_obj(s) {
        Some(ms) => decode_msg(ms),
        None => None,
    }
}

/// The canonical bytes a well-formed client writes for a message.
pub open spec fn serialize_client_msg_spec(m: ClientMsgS) -> Seq<u8> {
    ser_obj(encode_msg(m))
}

/// An optional push under another key leaves a lookup unchanged.
proof fn lemma_opt_push_miss(ms: JsonPairsS, o: Option<(Seq<u8>, JsonValS)>, k: Seq<u8>)
    requires
        o matches Some(pr) ==> pr.0 != k,
    ensures
        lookup(opt_push(ms, o), k) == lookup(ms, k),
{
    match o {
        Some(pr) => lemma_lookup_push_miss(ms, pr, k),
        None => {},
    }
}

/// An optional push under a fresh key makes its lookup the pushed value,
/// or leaves it absent when nothing is pushed.
proof fn lemma_opt_push_at(ms: JsonPairsS, o: Option<(Seq<u8>, JsonValS)>, k: Seq<u8>)
    requires
        lookup(ms, k) is None,
        o matches Some(pr) ==> pr.0 == k,
    ensures
        lookup(opt_push(ms, o), k) == (match o {
            Some(pr) => Some(pr.1),
            None => None::<JsonValS>,
        }),
{
    match o {
        Some(pr) => lemma_lookup_push_hit(ms, pr),
        None => {},
    }
}

/// An optional push keeps every value delimited if the pushed one is.
proof fn lemma_opt_push_delimited(ms: JsonPairsS, o: Option<(Seq<u8>, JsonValS)>)
    requires
        all_delimited(ms),
        o matches Some(pr) ==> !(pr.1 is Num),
    ensures
        all_delimited(opt_push(ms, o)),
{
    match o {
        Some(pr) => {
            assert forall|i: int| 0 <= i < ms.push(pr).len() implies !(#[trigger] ms.push(
                pr,
            )[i].1 is Num) by {
                if i < ms.len() {
                    assert(ms.push(pr)[i] == ms[i]);
                } else {
                    assert(ms.push(pr)[i] == pr);
                }
            }
        },
        None => {},
    }
}

/// Nothing is found in an empty member list.
proof fn lemma_lookup_empty(k: Seq<u8>)
    ensures
        lookup(Seq::<(Seq<u8>, JsonValS)>::empty(), k) is None,
{
}

/// Lookup in a two-member list.
proof fn lemma_lookup2(ms: JsonPairsS, k: Seq<u8>)
    requires
        ms.len() == 2,
        ms[0].0 != ms[1].0,
    ensures
        lookup(ms, ms[0].0) == Some(ms[0].1),
        lookup(ms, ms[1].0) == Some(ms[1].1),
        k != ms[0].0 && k != ms[1].0 ==> lookup(ms, k) is None,
{
    reveal_with_fuel(lookup, 4);
    assert(ms.skip(1).len() == 1);
    assert(ms.skip(1)[0] == ms[1]);
    assert(ms.skip(1).skip(1) =~= Seq::<(Seq<u8>, JsonValS)>::empty());
    lemma_lookup_empty(k);
    lemma_lookup_empty(ms[1].0);
}

/// Lookup in a three-member list.
proof fn lemma_lookup3(ms: JsonPairsS, k: Seq<u8>)
    requires
        ms.len() == 3,
        ms[0].0 != ms[1].0,
        ms[0].0 != ms[2].0,
        ms[1].0 != ms[2].0,
    ensures
        lookup(ms, ms[0].0) == Some(ms[0].1),
        lookup(ms, ms[1].0) == Some(ms[1].1),
        lookup(ms, ms[2].0) == Some(ms[2].1),
        k != ms[0].0 && k != ms[1].0 && k != ms[2].0 ==> lookup(ms, k) is None,
{
    reveal_with_fuel(lookup, 5);
    assert(ms.skip(1).len() == 2);
    assert(ms.skip(1)[0] == ms[1]);
    assert(ms.skip(1)[1] == ms[2]);
    assert(ms.skip(1).skip(1) =~= ms.skip(2));
    assert(ms.skip(2)[0] == ms[2]);
    assert(ms.skip(2).skip(1) =~= Seq::<(Seq<u8>, JsonValS)>::empty());
    lemma_lookup_empty(k);
    lemma_lookup_empty(ms[1].0);
    lemma_lookup_empty(ms[2].0);
}

/// Every value a well-formed client writes is delimited.
pub proof fn lemma_encode_delimited(m: ClientMsgS)
    ensures
        all_delimited(encode_msg(m)),
{
    match m {
        ClientMsgS::UserMessage { text, images } => {
            let base = seq![
                (k_type(), JsonValS::Str(t_user_message())),
                (k_text(), JsonValS::Str(text)),
            ];
            assert(all_delimited(base)) by {
                assert(base[0].1 is Str && base[1].1 is Str);
            }
            lemma_opt_push_delimited(
                base,
                match images {
                    Some(a) => Some((k_images(), JsonValS::StrArr(a))),
                    None => None,
                },
            );
        },
        ClientMsgS::Interrupt => {
            assert(encode_msg(m)[0].1 is Str);
        },
        ClientMsgS::ExecApproval { id, decision } => {
            let e = encode_msg(m);
            assert(e[0].1 is Str && e[1].1 is Str && e[2].1 is Str);
        },
        ClientMsgS::PatchApproval { id, decision } => {
            let e = encode_msg(m);
            assert(e[0].1 is Str && e[1].1 is Str && e[2].1 is Str);
        },
        ClientMsgS::Compact => {
            assert(encode_msg(m)[0].1 is Str);
        },
        ClientMsgS::OverrideTurnContext { cwd, model, approval_policy, effort, sandbox_mode } => {
            let p0 = seq![(k_type(), JsonValS::Str(t_override()))];
            assert(all_delimited(p0)) by {
                assert(p0[0].1 is Str);
            }
            let p1 = opt_push(p0, opt_member(k_cwd(), cwd));
            let p2 = opt_push(p1, opt_member(k_model(), model));
            let o3 = opt_member(
                k_approval_policy(),
                match approval_policy {
                    Some(p) => Some(enc_policy(p)),
                    None => None,
                },
            );
            let p3 = opt_push(p2, o3);
            let o4 = opt_member(
                k_effort(),
                match effort {
                    Some(e) => Some(enc_effort(e)),
                    None => None,
                },
            );
            let p4 = opt_push(p3, o4);
            let o5 = opt_member(
                k_sandbox_mode(),
                match sandbox_mode {
                    Some(s) => Some(enc_sandbox(s)),
                    None => None,
                },
            );
            lemma_opt_push_delimited(p0, opt_member(k_cwd(), cwd));
            lemma_opt_push_delimited(p1, opt_member(k_model(), model));
            lemma_opt_push_delimited(p2, o3);
            lemma_opt_push_delimited(p3, o4);
            lemma_opt_push_delimited(p4, o5);
        },
    }
}

/// A decision's wire name decodes back to the decision.
proof fn lemma_dec_enc_decision(d: ReviewDecision)
    ensures
        dec_decision(enc_decision(d)) == Some(d),
{
    assert(d_approved().len() == 8 && d_approved_for_session().len() == 20 && d_denied().len()
        == 6 && d_abort().len() == 5);
    match d {
        ReviewDecision::Approved => {},
        ReviewDecision::ApprovedForSession => {},
        ReviewDecision::Denied => {},
        ReviewDecision::Abort => {},
    }
}

/// A policy's wire name decodes back to the policy.
proof fn lemma_dec_enc_policy(p: AskForApproval)
    ensures
        dec_policy(enc_policy(p)) == Some(p),
{
    match p {
        AskForApproval::Untrusted => {},
        AskForApproval::OnFailure => {
            assert(p_on_failure()[3] != p_on_request()[3]);
        },
        AskForApproval::OnRequest => {
            assert(p_on_request()[3] != p_on_failure()[3]);
        },
        AskForApproval::Never => {},
    }
}

/// An effort's wire name decodes back to the effort.
proof fn lemma_dec_enc_effort(e: ReasoningEffort)
    ensures
        dec_effort(enc_effort(e)) == Some(e),
{
    match e {
        ReasoningEffort::Minimal => {},
        ReasoningEffort::Low => {},
        ReasoningEffort::Medium => {},
        ReasoningEffort::High => {},
    }
}

/// A sandbox mode's wire name decodes back to the mode.
proof fn lemma_dec_enc_sandbox(s: SandboxMode)
    ensures
        dec_sandbox(enc_sandbox(s)) == Some(s),
{
    match s {
        SandboxMode::ReadOnly => {},
        SandboxMode::WorkspaceWrite => {},
        SandboxMode::DangerFullAccess => {},
    }
}

/// Decoding a canonically written message gives the message back.
pub proof fn lemma_decode_encode(m: ClientMsgS)
    ensures
        decode_msg(encode_msg(m)) == Some(m),
{
    let e = encode_msg(m);
    match m {
        ClientMsgS::UserMessage { text, images } => {
            let base = seq![
                (k_type(), JsonValS::Str(t_user_message())),
                (k_text(), JsonValS::Str(text)),
            ];
            let o = match images {
                Some(a) => Some((k_images(), JsonValS::StrArr(a))),
                None => None::<(Seq<u8>, JsonValS)>,
            };
            assert(k_type()[1] != k_text()[1]);
            lemma_lookup2(base, k_images());
            lemma_opt_push_miss(base, o, k_type());
            lemma_opt_push_miss(base, o, k_text());
            lemma_opt_push_at(base, o, k_images());
            assert(get_str(e, k_type()) == Some(t_user_message()));
            assert(t_user_message() == t_user_message());
            assert(get_str(e, k_text()) == Some(text));
            assert(opt_arr(e, k_images()) == Some(images));
            assert(decode_msg(e) =~~= Some(m));
        },
        ClientMsgS::Interrupt => {
            assert(e[0].0 == k_type());
            assert(get_str(e, k_type()) == Some(t_interrupt()));
            assert(t_interrupt().len() != t_user_message().len());
        },
        ClientMsgS::ExecApproval { id, decision } => {
            assert(k_type().len() != k_id().len() && k_type().len() != k_decision().len()
                && k_id().len() != k_decision().len());
            lemma_lookup3(e, k_type());
            assert(get_str(e, k_type()) == Some(t_exec_approval()));
            assert(get_str(e, k_id()) == Some(id));
            assert(get_str(e, k_decision()) == Some(enc_decision(decision)));
            lemma_dec_enc_decision(decision);
            assert(decode_msg(e) =~~= Some(m));
        },
        ClientMsgS::PatchApproval { id, decision } => {
            assert(k_type().len() != k_id().len() && k_type().len() != k_decision().len()
                && k_id().len() != k_decision().len());
            lemma_lookup3(e, k_type());
            assert(get_str(e, k_type()) == Some(t_patch_approval()));
            assert(get_str(e, k_id()) == Some(id));
            assert(get_str(e, k_decision()) == Some(enc_decision(decision)));
            lemma_dec_enc_decision(decision);
            assert(t_patch_approval().len() != t_exec_approval().len());
            assert(decode_msg(e) =~~= Some(m));
        },
        ClientMsgS::Compact => {
            assert(e[0].0 == k_type());
            assert(get_str(e, k_type()) == Some(t_compact()));
        },
        ClientMsgS::OverrideTurnContext { cwd, model, approval_policy, effort, sandbox_mode } => {
            lemma_decode_encode_override(cwd, model, approval_policy, effort, sandbox_mode);
        },
    }
}

/// The override variant decodes back to itself, for every combination of
/// present and absent optional fields.
#[verifier::rlimit(80)]
proof fn lemma_decode_encode_override(
    cwd: Option<Seq<u8>>,
    model: Option<Seq<u8>>,
    approval_policy: Option<AskForApproval>,
    effort: Option<ReasoningEffort>,
    sandbox_mode: Option<SandboxMode>,
)
    ensures
        decode_msg(
            encode_msg(
                ClientMsgS::OverrideTurnContext {
                    cwd,
                    model,
                    approval_policy,
                    effort,
                    sandbox_mode,
                },
            ),
        ) == Some(
            ClientMsgS::OverrideTurnContext { cwd, model, approval_policy, effort, sandbox_mode },
        ),
{
    let m = ClientMsgS::OverrideTurnContext { cwd, model, approval_policy, effort, sandbox_mode };
    let e = encode_msg(m);
    let p0 = seq![(k_type(), JsonValS::Str(t_override()))];
    let o1 = opt_member(k_cwd(), cwd);
    let p1 = opt_push(p0, o1);
    let o2 = opt_member(k_model(), model);
    let p2 = opt_push(p1, o2);
    let o3 = opt_member(
        k_approval_policy(),
        match approval_policy {
            Some(p) => Some(enc_policy(p)),
            None => None,
        },
    );
    let p3 = opt_push(p2, o3);
    let o4 = opt_member(
        k_effort(),
        match effort {
            Some(x) => Some(enc_effort(x)),
            None => None,
        },
    );
    let p4 = opt_push(p3, o4);
    let o5 = opt_member(
        k_sandbox_mode(),
        match sandbox_mode {
            Some(s) => Some(enc_sandbox(s)),
            None => None,
        },
    );
    let p5 = opt_push(p4, o5);
    assert(e == p5);
    assert(p0.skip(1) =~= Seq::<(Seq<u8>, JsonValS)>::empty());
    lemma_lookup_empty(k_cwd());
    lemma_lookup_empty(k_model());
    lemma_lookup_empty(k_approval_policy());
    lemma_lookup_empty(k_effort());
    lemma_lookup_empty(k_sandbox_mode());
    // the discriminator, preserved through every optional push
    lemma_opt_push_miss(p0, o1, k_type());
    lemma_opt_push_miss(p1, o2, k_type());
    lemma_opt_push_miss(p2, o3, k_type());
    lemma_opt_push_miss(p3, o4, k_type());
    lemma_opt_push_miss(p4, o5, k_type());
    assert(get_str(p5, k_type()) == Some(t_override()));
    // cwd: set (or left absent) at the first push, preserved after
    lemma_opt_push_at(p0, o1, k_cwd());
    lemma_opt_push_miss(p1, o2, k_cwd());
    lemma_opt_push_miss(p2, o3, k_cwd());
    lemma_opt_push_miss(p3, o4, k_cwd());
    lemma_opt_push_miss(p4, o5, k_cwd());
    assert(opt_str(p5, k_cwd()) == Some(cwd));
    // model
    lemma_opt_push_miss(p0, o1, k_model());
    lemma_opt_push_at(p1, o2, k_model());
    lemma_opt_push_miss(p2, o3, k_model());
    lemma_opt_push_miss(p3, o4, k_model());
    lemma_opt_push_miss(p4, o5, k_model());
    assert(opt_str(p5, k_model()) == Some(model));
    // approval policy
    lemma_opt_push_miss(p0, o1, k_approval_policy());
    lemma_opt_push_miss(p1, o2, k_approval_policy());
    lemma_opt_push_at(p2, o3, k_approval_policy());
    lemma_opt_push_miss(p3, o4, k_approval_policy());
    lemma_opt_push_miss(p4, o5, k_approval_policy());
    if let Some(p) = approval_policy {
        lemma_dec_enc_policy(p);
    }
    assert(opt_policy(p5) == Some(approval_policy));
    // effort
    lemma_opt_push_miss(p0, o1, k_effort());
    lemma_opt_push_miss(p1, o2, k_effort());
    lemma_opt_push_miss(p2, o3, k_effort());
    lemma_opt_push_at(p3, o4, k_effort());
    lemma_opt_push_miss(p4, o5, k_effort());
    if let Some(x) = effort {
        lemma_dec_enc_effort(x);
    }
    assert(opt_effort(p5) == Some(effort));
    // sandbox mode
    lemma_opt_push_miss(p0, o1, k_sandbox_mode());
    lemma_opt_push_miss(p1, o2, k_sandbox_mode());
    lemma_opt_push_miss(p2, o3, k_sandbox_mode());
    lemma_opt_push_miss(p3, o4, k_sandbox_mode());
    lemma_opt_push_at(p4, o5, k_sandbox_mode());
    if let Some(s) = sandbox_mode {
        lemma_dec_enc_sandbox(s);
    }
    assert(opt_sandbox(p5) == Some(sandbox_mode));
    assert(t_override().len() != t_user_message().len());
    assert(decode_msg(e) =~~= Some(m));
}

/// The codec round-trips: parsing the canonical bytes of any client
/// message yields exactly that message.
pub proof fn lemma_client_msg_round_trip(m: ClientMsgS)
    ensures
        parse_client_msg_spec(serialize_client_msg_spec(m)) == Some(m),
{
    lemma_encode_delimited(m);
    lemma_ser_obj_parses(encode_msg(m));
    lemma_decode_encode(m);
}

/// A frame in canonical form re-serializes to itself: what a well-formed
/// client sent equals what the parsed message writes back.
pub proof fn lemma_reserialize_canonical(j: Seq<u8>, m: ClientMsgS)
    requires
        j == serialize_client_msg_spec(m),
    ensures
        parse_client_msg_spec(j) == Some(m),
        serialize_client_msg_spec(parse_client_msg_spec(j)->Some_0) == j,
{
    lemma_client_msg_round_trip(m);
}

/// Byte-for-byte equality of two slices.
pub fn eq_bytes(a: &[u8], b: &[u8]) -> (r: bool)
    ensures
        r == (a@ == b@),
{
    if a.len() != b.len() {
        proof {
            assert(a@ != b@);
        }
        return false;
    }
    let n = a.len();
    let mut i: usize = 0;
    while i < n
        invariant
            0 <= i <= n,
            n == a@.len() && n == b@.len(),
            forall|j: int| 0 <= j < i ==> a@[j] == b@[j],
        decreases n - i,
    {
        if a[i] != b[i] {
            proof {
                assert(a@[i as int] != b@[i as int]);
            }
            return false;
        }
        i = i + 1;
    }
    proof {
        assert(a@ =~= b@);
    }
    true
}

/// First value stored under a key, at run time.
fn lookup_exec<'a>(ms: &'a JsonPairs, k: &[u8]) -> (r: Option<&'a JsonVal>)
    ensures
        match r {
            Some(v) => lookup(pairs_view(*ms), k@) == Some(v@),
            None => lookup(pairs_view(*ms), k@) is None,
        },
{
    let n = ms.len();
    let mut i: usize = 0;
    proof {
        assert(pairs_view(*ms).skip(0) =~= pairs_view(*ms));
    }
    while i < n
        invariant
            0 <= i <= n,
            n == ms@.len(),
            lookup(pairs_view(*ms), k@) == lookup(pairs_view(*ms).skip(i as int), k@),
        decreases n - i,
    {
        proof {
            assert(pairs_view(*ms).skip(i as int)[0] == pairs_view(*ms)[i as int]);
            assert(pairs_view(*ms)[i as int] == (ms@[i as int].0@, ms@[i as int].1@));
        }
        if eq_bytes(ms[i].0.as_slice(), k) {
            return Some(&ms[i].1);
        }
        proof {
            assert(pairs_view(*ms).skip(i as int).skip(1) =~= pairs_view(*ms).skip(i as int + 1));
        }
        i = i + 1;
    }
    proof {
        assert(pairs_view(*ms).skip(n as int) =~= Seq::<(Seq<u8>, JsonValS)>::empty());
    }
    None
}

/// Copies an array of byte strings.
fn copy_vecs(a: &Vec<Vec<u8>>) -> (r: Vec<Vec<u8>>)
    ensures
        vecs_view(r@) == vecs_view(a@),
{
    let mut out: Vec<Vec<u8>> = Vec::new();
    let n = a.len();
    let mut i: usize = 0;
    while i < n
        invariant
            0 <= i <= n,
            n == a@.len(),
            vecs_view(out@) =~= vecs_view(a@).take(i as int),
        decreases n - i,
    {
        let ghost prev = out@;
        out.push(vstd::slice::slice_to_vec(a[i].as_slice()));
        proof {
            assert(vecs_view(out@) =~= vecs_view(prev).push(vecs_view(a@)[i as int]));
            assert(vecs_view(a@).take(i as int + 1) =~= vecs_view(a@).take(i as int).push(
                vecs_view(a@)[i as int],
            ));
        }
        i = i + 1;
    }
    proof {
        assert(vecs_view(a@).take(n as int) =~= vecs_view(a@));
    }
    out
}

/// A required string field, copied out.
fn get_str_exec(ms: &JsonPairs, k: &[u8]) -> (r: Option<Vec<u8>>)
    ensures
        match r {
            Some(t) => get_str(pairs_view(*ms), k@) == Some(t@),
            None => get_str(pairs_view(*ms), k@) is None,
        },
{
    match lookup_exec(ms, k) {
        Some(JsonVal::Str(t)) => Some(vstd::slice::slice_to_vec(t.as_slice())),
        _ => None,
    }
}

/// An optional string field, copied out.
fn opt_str_exec(ms: &JsonPairs, k: &[u8]) -> (r: Option<Option<Vec<u8>>>)
    ensures
        match r {
            Some(Some(t)) => opt_str(pairs_view(*ms), k@) == Some(Some(t@)),
            Some(None) => opt_str(pairs_view(*ms), k@) == Some(None::<Seq<u8>>),
            None => opt_str(pairs_view(*ms), k@) is None,
        },
{
    match lookup_exec(ms, k) {
        None => Some(None),
        Some(JsonVal::Null) => Some(None),
        Some(JsonVal::Str(t)) => Some(Some(vstd::slice::slice_to_vec(t.as_slice()))),
        Some(_) => None,
    }
}

/// An optional array-of-strings field, copied out.
fn opt_arr_exec(ms: &JsonPairs, k: &[u8]) -> (r: Option<Option<Vec<Vec<u8>>>>)
    ensures
        match r {
            Some(Some(a)) => opt_arr(pairs_view(*ms), k@) == Some(Some(vecs_view(a@))),
            Some(None) => opt_arr(pairs_view(*ms), k@) == Some(None::<Seq<Seq<u8>>>),
            None => opt_arr(pairs_view(*ms), k@) is None,
        },
{
    match lookup_exec(ms, k) {
        None => Some(None),
        Some(JsonVal::Null) => Some(None),
        Some(JsonVal::StrArr(a)) => Some(Some(copy_vecs(a))),
        Some(_) => None,
    }
}

/// Decodes a decision's wire name.
fn dec_decision_exec(t: &[u8]) -> (r: Option<ReviewDecision>)
    ensures
        r == dec_decision(t@),
{
    if eq_bytes(t, d_approved_exec().as_slice()) {
        Some(ReviewDecision::Approved)
    } else if eq_bytes(t, d_approved_for_session_exec().as_slice()) {
        Some(ReviewDecision::ApprovedForSession)
    } else if eq_bytes(t, d_denied_exec().as_slice()) {
        Some(ReviewDecision::Denied)
    } else if eq_bytes(t, d_abort_exec().as_slice()) {
        Some(ReviewDecision::Abort)
    } else {
        None
    }
}

/// Decodes a policy's wire name.
fn dec_policy_exec(t: &[u8]) -> (r: Option<AskForApproval>)
    ensures
        r == dec_policy(t@),
{
    if eq_bytes(t, p_untrusted_exec().as_slice()) {
        Some(AskForApproval::Untrusted)
    } else if eq_bytes(t, p_on_failure_exec().as_slice()) {
        Some(AskForApproval::OnFailure)
    } else if eq_bytes(t, p_on_request_exec().as_slice()) {
        Some(AskForApproval::OnRequest)
    } else if eq_bytes(t, p_never_exec().as_slice()) {
        Some(AskForApproval::Never)
    } else {
        None
    }
}

/// Decodes an effort's wire name.
fn dec_effort_exec(t: &[u8]) -> (r: Option<ReasoningEffort>)
    ensures
        r == dec_effort(t@),
{
    if eq_bytes(t, e_minimal_exec().as_slice()) {
        Some(ReasoningEffort::Minimal)
    } else if eq_bytes(t, e_low_exec().as_slice()) {
        Some(ReasoningEffort::Low)
    } else if eq_bytes(t, e_medium_exec().as_slice()) {
        Some(ReasoningEffort::Medium)
    } else if eq_bytes(t, e_high_exec().as_slice()) {
        Some(ReasoningEffort::High)
    } else {
        None
    }
}

/// Decodes a sandbox mode's wire name.
fn dec_sandbox_exec(t: &[u8]) -> (r: Option<SandboxMode>)
    ensures
        r == dec_sandbox(t@),
{
    if eq_bytes(t, s_read_only_exec().as_slice()) {
        Some(SandboxMode::ReadOnly)
    } else if eq_bytes(t, s_workspace_write_exec().as_slice()) {
        Some(SandboxMode::WorkspaceWrite)
    } else if eq_bytes(t, s_danger_full_access_exec().as_slice()) {
        Some(SandboxMode::DangerFullAccess)
    } else {
        None
    }
}

/// An optional approval-policy field.
fn opt_policy_exec(ms: &JsonPairs) -> (r: Option<Option<AskForApproval>>)
    ensures
        r == opt_policy(pairs_view(*ms)),
{
    match lookup_exec(ms, k_approval_policy_exec().as_slice()) {
        None => Some(None),
        Some(JsonVal::Null) => Some(None),
        Some(JsonVal::Str(t)) => match dec_policy_exec(t.as_slice()) {
            Some(p) => Some(Some(p)),
            None => None,
        },
        Some(_) => None,
    }
}

/// An optional reasoning-effort field.
fn opt_effort_exec(ms: &JsonPairs) -> (r: Option<Option<ReasoningEffort>>)
    ensures
        r == opt_effort(pairs_view(*ms)),
{
    match lookup_exec(ms, k_effort_exec().as_slice()) {
        None => Some(None),
        Some(JsonVal::Null) => Some(None),
        Some(JsonVal::Str(t)) => match dec_effort_exec(t.as_slice()) {
            Some(e) => Some(Some(e)),
            None => None,
        },
        Some(_) => None,
    }
}

/// An optional sandbox-mode field.
fn opt_sandbox_exec(ms: &JsonPairs) -> (r: Option<Option<SandboxMode>>)
    ensures
        r == opt_sandbox(pairs_view(*ms)),
{
    match lookup_exec(ms, k_sandbox_mode_exec().as_slice()) {
        None => Some(None),
        Some(JsonVal::Null) => Some(None),
        Some(JsonVal::Str(t)) => match dec_sandbox_exec(t.as_slice()) {
            Some(s) => Some(Some(s)),
            None => None,
        },
        Some(_) => None,
    }
}

/// Decodes an object's members into a client message.
pub fn decode_msg_exec(ms: &JsonPairs) -> (r: Option<ClientMsg>)
    ensures
        match r {
            Some(c) => decode_msg(pairs_view(*ms)) == Some(c@),
            None => decode_msg(pairs_view(*ms)) is None,
        },
{
    let t = match get_str_exec(ms, k_type_exec().as_slice()) {
        Some(t) => t,
        None => {
            return None;
        },
    };
    if eq_bytes(t.as_slice(), t_user_message_exec().as_slice()) {
        let text = match get_str_exec(ms, k_text_exec().as_slice()) {
            Some(text) => text,
            None => {
                return None;
            },
        };
        match opt_arr_exec(ms, k_images_exec().as_slice()) {
            Some(images) => Some(ClientMsg::UserMessage { text, images }),
            None => None,
        }
    } else if eq_bytes(t.as_slice(), t_interrupt_exec().as_slice()) {
        Some(ClientMsg::Interrupt)
    } else if eq_bytes(t.as_slice(), t_exec_approval_exec().as_slice()) || eq_bytes(
        t.as_slice(),
        t_patch_approval_exec().as_slice(),
    ) {
        let id = match get_str_exec(ms, k_id_exec().as_slice()) {
            Some(id) => id,
            None => {
                return None;
            },
        };
        let d = match get_str_exec(ms, k_decision_exec().as_slice()) {
            Some(d) => d,
            None => {
                return None;
            },
        };
        match dec_decision_exec(d.as_slice()) {
            Some(decision) => {
                if eq_bytes(t.as_slice(), t_exec_approval_exec().as_slice()) {
                    Some(ClientMsg::ExecApproval { id, decision })
                } else {
                    Some(ClientMsg::PatchApproval { id, decision })
                }
            },
            None => None,
        }
    } else if eq_bytes(t.as_slice(), t_compact_exec().as_slice()) {
        Some(ClientMsg::Compact)
    } else if eq_bytes(t.as_slice(), t_override_exec().as_slice()) {
        let cwd = match opt_str_exec(ms, k_cwd_exec().as_slice()) {
            Some(cwd) => cwd,
            None => {
                return None;
            },
        };
        let model = match opt_str_exec(ms, k_model_exec().as_slice()) {
            Some(model) => model,
            None => {
                return None;
            },
        };
        let approval_policy = match opt_policy_exec(ms) {
            Some(p) => p,
            None => {
                return None;
            },
        };
        let effort = match opt_effort_exec(ms) {
            Some(e) => e,
            None => {
                return None;
            },
        };
        let sandbox_mode = match opt_sandbox_exec(ms) {
            Some(s) => s,
            None => {
                return None;
            },
        };
        Some(
            ClientMsg::OverrideTurnContext { cwd, model, approval_policy, effort, sandbox_mode },
        )
    } else {
        None
    }
}

/// Parses one text frame's bytes into a client message; yields nothing on
/// any malformed frame, exactly as `parse_client_msg_spec` states.
pub fn parse_client_msg(s: &[u8]) -> (r: Option<ClientMsg>)
    ensures
        match r {
            Some(m) => parse_client_msg_spec(s@) == Some(m@),
            None => parse_client_msg_spec(s@) is None,
        },
{
    match parse_json_obj_exec(s) {
        Some(ms) => decode_msg_exec(&ms),
        None => None,
    }
}

/// Encodes a client message as its canonical member list.
#[verifier::rlimit(100)]
pub fn encode_msg_exec(m: &ClientMsg) -> (r: JsonPairs)
    ensures
        pairs_view(r) == encode_msg(m@),
{
    let mut out: JsonPairs = Vec::new();
    match m {
        ClientMsg::UserMessage { text, images } => {
            out.push((k_type_exec(), JsonVal::Str(t_user_message_exec())));
            out.push((k_text_exec(), JsonVal::Str(vstd::slice::slice_to_vec(text.as_slice()))));
            let ghost base = pairs_view(out);
            proof {
                assert(base =~= seq![
                    (k_type(), JsonValS::Str(t_user_message())),
                    (k_text(), JsonValS::Str(text@)),
                ]);
            }
            match images {
                Some(a) => {
                    out.push((k_images_exec(), JsonVal::StrArr(copy_vecs(a))));
                    proof {
                        assert(pairs_view(out) =~= base.push(
                            (k_images(), JsonValS::StrArr(vecs_view(a@))),
                        ));
                    }
                },
                None => {},
            }
            proof {
                assert(pairs_view(out) =~= encode_msg(m@));
            }
        },
        ClientMsg::Interrupt => {
            out.push((k_type_exec(), JsonVal::Str(t_interrupt_exec())));
            proof {
                assert(pairs_view(out) =~= encode_msg(m@));
            }
        },
        ClientMsg::ExecApproval { id, decision } => {
            out.push((k_type_exec(), JsonVal::Str(t_exec_approval_exec())));
            out.push((k_id_exec(), JsonVal::Str(vstd::slice::slice_to_vec(id.as_slice()))));
            out.push((k_decision_exec(), JsonVal::Str(enc_decision_exec(*decision))));
            proof {
                assert(pairs_view(out) =~= encode_msg(m@));
            }
        },
        ClientMsg::PatchApproval { id, decision } => {
            out.push((k_type_exec(), JsonVal::Str(t_patch_approval_exec())));
            out.push((k_id_exec(), JsonVal::Str(vstd::slice::slice_to_vec(id.as_slice()))));
            out.push((k_decision_exec(), JsonVal::Str(enc_decision_exec(*decision))));
            proof {
                assert(pairs_view(out) =~= encode_msg(m@));
            }
        },
        ClientMsg::Compact => {
            out.push((k_type_exec(), JsonVal::Str(t_compact_exec())));
            proof {
                assert(pairs_view(out) =~= encode_msg(m@));
            }
        },
        ClientMsg::OverrideTurnContext { cwd, model, approval_policy, effort, sandbox_mode } => {
            out.push((k_type_exec(), JsonVal::Str(t_override_exec())));
            let ghost p0 = pairs_view(out);
            proof {
                assert(p0 =~= seq![(k_type(), JsonValS::Str(t_override()))]);
            }
            match cwd {
                Some(c) => {
                    let ghost before = pairs_view(out);
                    out.push((k_cwd_exec(), JsonVal::Str(vstd::slice::slice_to_vec(c.as_slice()))));
                    proof {
                        assert(pairs_view(out) =~= before.push((k_cwd(), JsonValS::Str(c@))));
                    }
                },
                None => {},
            }
            match model {
                Some(x) => {
                    let ghost before = pairs_view(out);
                    out.push(
                        (k_model_exec(), JsonVal::Str(vstd::slice::slice_to_vec(x.as_slice()))),
                    );
                    proof {
                        assert(pairs_view(out) =~= before.push((k_model(), JsonValS::Str(x@))));
                    }
                },
                None => {},
            }
            match approval_policy {
                Some(p) => {
                    let ghost before = pairs_view(out);
                    out.push((k_approval_policy_exec(), JsonVal::Str(enc_policy_exec(*p))));
                    proof {
                        assert(pairs_view(out) =~= before.push(
                            (k_approval_policy(), JsonValS::Str(enc_policy(*p))),
                        ));
                    }
                },
                None => {},
            }
            match effort {
                Some(e) => {
                    let ghost before = pairs_view(out);
                    out.push((k_effort_exec(), JsonVal::Str(enc_effort_exec(*e))));
                    proof {
                        assert(pairs_view(out) =~= before.push(
                            (k_effort(), JsonValS::Str(enc_effort(*e))),
                        ));
                    }
                },
                None => {},
            }
            match sandbox_mode {
                Some(s) => {
                    let ghost before = pairs_view(out);
                    out.push((k_sandbox_mode_exec(), JsonVal::Str(enc_sandbox_exec(*s))));
                    proof {
                        assert(pairs_view(out) =~= before.push(
                            (k_sandbox_mode(), JsonValS::Str(enc_sandbox(*s))),
                        ));
                    }
                },
                None => {},
            }
            proof {
                assert(pairs_view(out) =~= encode_msg(m@));
            }
        },
    }
    out
}

/// A decision's wire name, at run time.
fn enc_decision_exec(d: ReviewDecision) -> (r: Vec<u8>)
    ensures
        r@ == enc_decision(d),
{
    match d {
        ReviewDecision::Approved => d_approved_exec(),
        ReviewDecision::ApprovedForSession => d_approved_for_session_exec(),
        ReviewDecision::Denied => d_denied_exec(),
        ReviewDecision::Abort => d_abort_exec(),
    }
}

/// A policy's wire name, at run time.
fn enc_policy_exec(p: AskForApproval) -> (r: Vec<u8>)
    ensures
        r@ == enc_policy(p),
{
    match p {
        AskForApproval::Untrusted => p_untrusted_exec(),
        AskForApproval::OnFailure => p_on_failure_exec(),
        AskForApproval::OnRequest => p_on_request_exec(),
        AskForApproval::Never => p_never_exec(),
    }
}

/// An effort's wire name, at run time.
fn enc_effort_exec(e: ReasoningEffort) -> (r: Vec<u8>)
    ensures
        r@ == enc_effort(e),
{
    match e {
        ReasoningEffort::Minimal => e_minimal_exec(),
        ReasoningEffort::Low => e_low_exec(),
        ReasoningEffort::Medium => e_medium_exec(),
        ReasoningEffort::High => e_high_exec(),
    }
}

/// A sandbox mode's wire name, at run time.
fn enc_sandbox_exec(s: SandboxMode) -> (r: Vec<u8>)
    ensures
        r@ == enc_sandbox(s),
{
    match s {
        SandboxMode::ReadOnly => s_read_only_exec(),
        SandboxMode::WorkspaceWrite => s_workspace_write_exec(),
        SandboxMode::DangerFullAccess => s_danger_full_access_exec(),
    }
}

/// Writes a client message in its canonical form: the bytes a well-formed
/// client sends, and the bytes whose parse is proved to give the message
/// back.
pub fn serialize_client_msg(m: &ClientMsg) -> (r: Vec<u8>)
    ensures
        r@ == serialize_client_msg_spec(m@),
{
    let ms = encode_msg_exec(m);
    ser_obj_exec(&ms)
}

} // verus!
