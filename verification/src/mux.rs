//! The agent connection multiplexer: one long-lived connection serves many
//! concurrent callers. The state machine here decides everything — what to
//! write, which caller a line answers, which lines become inbound messages —
//! while the surrounding task only moves bytes and performs the actions it is
//! handed.
use vstd::prelude::*;
use crate::client::new_envelope_with_src;
use crate::envelope::{
    decode_envelope, decoded_envelope, push_field, wf_envelope_json, EnvelopeV, WeaveEnvelope,
};
use crate::json::{json_text, json_text_spec, obj_get_spec, JsonValue};
use crate::strutil::{str_eq, trim_spec, trim_str};
use vstd::string::{StrSliceExecFns, StringExecFns};

verus! {

/// The coarse kind of an inbound message.
#[derive(Clone, Copy, Debug, PartialEq, Eq, Structural)]
pub enum WeaveMessageKind {
    User,
    Reply,
}

/// One chat message surfaced to the caller.
#[derive(Debug, PartialEq, Eq)]
pub struct WeaveIncomingMessage {
    pub session_id: String,
    pub message_id: String,
    pub src: String,
    pub src_name: Option<String>,
    pub text: String,
    pub kind: WeaveMessageKind,
    pub conversation_id: String,
    pub conversation_owner: String,
    pub parent_message_id: Option<String>,
}

pub ghost struct IncomingMessageV {
    pub session_id: Seq<char>,
    pub message_id: Seq<char>,
    pub src: Seq<char>,
    pub src_name: Option<Seq<char>>,
    pub text: Seq<char>,
    pub kind: WeaveMessageKind,
    pub conversation_id: Seq<char>,
    pub conversation_owner: Seq<char>,
    pub parent_message_id: Option<Seq<char>>,
}

impl View for WeaveIncomingMessage {
    type V = IncomingMessageV;

    open spec fn view(&self) -> IncomingMessageV {
        IncomingMessageV {
            session_id: self.session_id@,
            message_id: self.message_id@,
            src: self.src@,
            src_name: match self.src_name {
                Some(ref s) => Some(s@),
                None => None,
            },
            text: self.text@,
            kind: self.kind,
            conversation_id: self.conversation_id@,
            conversation_owner: self.conversation_owner@,
            parent_message_id: match self.parent_message_id {
                Some(ref s) => Some(s@),
                None => None,
            },
        }
    }
}

/// The text of a message payload: a bare string, a `text` field, an
/// `input.text` field, or failing those the payload rendered as one line.
pub open spec fn rendered_text(v: JsonValue) -> Option<Seq<char>> {
    if json_text_spec(v).len() == 0 {
        None
    } else {
        Some(json_text_spec(v))
    }
}

pub open spec fn payload_text_spec(p: Option<JsonValue>) -> Option<Seq<char>> {
    match p {
        None => None,
        Some(v) => match v {
            JsonValue::Str(s) => Some(s@),
            _ => match obj_get_spec(v, "text"@) {
                Some(JsonValue::Str(s)) => Some(s@),
                _ => match obj_get_spec(v, "input"@) {
                    Some(inp) => match obj_get_spec(inp, "text"@) {
                        Some(JsonValue::Str(s)) => Some(s@),
                        _ => rendered_text(v),
                    },
                    None => rendered_text(v),
                },
            },
        },
    }
}

/// Reads the text of a message payload.
pub fn payload_text(payload: Option<&JsonValue>) -> (r: Option<String>)
    ensures
        match r {
            Some(t) => payload_text_spec(opt_val(payload)) == Some(t@),
            None => payload_text_spec(opt_val(payload)) is None,
        },
{
    let v = match payload {
        Some(v) => v,
        None => {
            return None;
        },
    };
    match v.as_str() {
        Some(s) => {
            return Some(s.clone());
        },
        None => {},
    }
    match v.obj_get("text") {
        Some(t) => match t.as_str() {
            Some(s) => {
                return Some(s.clone());
            },
            None => {},
        },
        None => {},
    }
    match v.obj_get("input") {
        Some(inp) => match inp.obj_get("text") {
            Some(t) => match t.as_str() {
                Some(s) => {
                    return Some(s.clone());
                },
                None => {},
            },
            None => {},
        },
        None => {},
    }
    let rendered = json_text(v);
    if rendered.as_str().unicode_len() == 0 {
        None
    } else {
        Some(rendered)
    }
}

/// The spec value of an optional reference.
pub open spec fn opt_val(p: Option<&JsonValue>) -> Option<JsonValue> {
    match p {
        Some(v) => Some(*v),
        None => None,
    }
}

/// The `codex` object of a payload, if it is there.
pub open spec fn payload_codex(p: Option<JsonValue>) -> Option<JsonValue> {
    match p {
        Some(v) => obj_get_spec(v, "codex"@),
        None => None,
    }
}

/// The kind under `codex.kind`: `reply` makes a reply, anything else a user
/// message.
pub open spec fn payload_kind_spec(p: Option<JsonValue>) -> WeaveMessageKind {
    match payload_codex(p) {
        Some(c) => if obj_get_spec(c, "kind"@) matches Some(JsonValue::Str(s)) && s@ == "reply"@ {
            WeaveMessageKind::Reply
        } else {
            WeaveMessageKind::User
        },
        None => WeaveMessageKind::User,
    }
}

/// Reads the kind of a message payload.
pub fn payload_kind(payload: Option<&JsonValue>) -> (r: WeaveMessageKind)
    ensures
        r == payload_kind_spec(opt_val(payload)),
{
    let v = match payload {
        Some(v) => v,
        None => {
            return WeaveMessageKind::User;
        },
    };
    let c = match v.obj_get("codex") {
        Some(c) => c,
        None => {
            return WeaveMessageKind::User;
        },
    };
    match c.obj_get("kind") {
        Some(k) => match k.as_str() {
            Some(s) => {
                if str_eq(s.as_str(), "reply") {
                    WeaveMessageKind::Reply
                } else {
                    WeaveMessageKind::User
                }
            },
            None => WeaveMessageKind::User,
        },
        None => WeaveMessageKind::User,
    }
}

/// A trimmed, non-blank string under `codex.<key>`.
pub open spec fn codex_str_spec(p: Option<JsonValue>, key: Seq<char>) -> Option<Seq<char>> {
    match payload_codex(p) {
        Some(c) => match obj_get_spec(c, key) {
            Some(JsonValue::Str(s)) => if trim_spec(s@).len() > 0 {
                Some(trim_spec(s@))
            } else {
                None
            },
            _ => None,
        },
        None => None,
    }
}

/// Reads a trimmed, non-blank string under `codex.<key>`.
fn codex_str(payload: Option<&JsonValue>, key: &str) -> (r: Option<String>)
    ensures
        match r {
            Some(t) => codex_str_spec(opt_val(payload), key@) == Some(t@),
            None => codex_str_spec(opt_val(payload), key@) is None,
        },
{
    let v = match payload {
        Some(v) => v,
        None => {
            return None;
        },
    };
    let c = match v.obj_get("codex") {
        Some(c) => c,
        None => {
            return None;
        },
    };
    match c.obj_get(key) {
        Some(k) => match k.as_str() {
            Some(s) => {
                let t = trim_str(s.as_str());
                if t.as_str().unicode_len() > 0 {
                    Some(t)
                } else {
                    None
                }
            },
            None => None,
        },
        None => None,
    }
}

/// Reads the sender's display name under `codex.sender_name`.
pub fn payload_sender_name(payload: Option<&JsonValue>) -> (r: Option<String>)
    ensures
        match r {
            Some(t) => codex_str_spec(opt_val(payload), "sender_name"@) == Some(t@),
            None => codex_str_spec(opt_val(payload), "sender_name"@) is None,
        },
{
    codex_str(payload, "sender_name")
}

/// Reads the conversation id under `codex.conversation_id`.
pub fn payload_conversation_id(payload: Option<&JsonValue>) -> (r: Option<String>)
    ensures
        match r {
            Some(t) => codex_str_spec(opt_val(payload), "conversation_id"@) == Some(t@),
            None => codex_str_spec(opt_val(payload), "conversation_id"@) is None,
        },
{
    codex_str(payload, "conversation_id")
}

/// Reads the conversation owner under `codex.conversation_owner`.
pub fn payload_conversation_owner(payload: Option<&JsonValue>) -> (r: Option<String>)
    ensures
        match r {
            Some(t) => codex_str_spec(opt_val(payload), "conversation_owner"@) == Some(t@),
            None => codex_str_spec(opt_val(payload), "conversation_owner"@) is None,
        },
{
    codex_str(payload, "conversation_owner")
}

/// Reads the parent message id under `codex.parent_message_id`.
pub fn payload_parent_message_id(payload: Option<&JsonValue>) -> (r: Option<String>)
    ensures
        match r {
            Some(t) => codex_str_spec(opt_val(payload), "parent_message_id"@) == Some(t@),
            None => codex_str_spec(opt_val(payload), "parent_message_id"@) is None,
        },
{
    codex_str(payload, "parent_message_id")
}

/// The inbox topic an agent listens on: `agent.<id>.inbox`.
pub open spec fn inbox_topic_spec(agent_id: Seq<char>) -> Seq<char> {
    "agent."@ + agent_id + ".inbox"@
}

/// Whether the envelope addresses this agent: by `dst`, or by its inbox
/// topic.
pub open spec fn is_dm_for_agent_spec(e: EnvelopeV, agent_id: Seq<char>) -> bool {
    e.dst == Some(agent_id) || e.topic == Some(inbox_topic_spec(agent_id))
}

/// Whether the envelope addresses this agent.
pub fn is_direct_message_for_agent(envelope: &WeaveEnvelope, agent_id: &str) -> (r: bool)
    ensures
        r == is_dm_for_agent_spec(envelope@, agent_id@),
{
    match &envelope.dst {
        Some(d) => {
            if str_eq(d.as_str(), agent_id) {
                return true;
            }
        },
        None => {},
    }
    match &envelope.topic {
        Some(t) => {
            let mut expected = String::new();
            expected.append("agent.");
            expected.append(agent_id);
            expected.append(".inbox");
            proof {
                assert(expected@ =~= inbox_topic_spec(agent_id@));
            }
            str_eq(t.as_str(), expected.as_str())
        },
        None => false,
    }
}

/// The inbound message an envelope becomes, if it becomes one: nothing from
/// the agent itself (no self echo), nothing not addressed to it, nothing
/// without a session or text; conversation metadata defaults to the envelope
/// id and sender.
pub open spec fn incoming_message_spec(
    e: EnvelopeV,
    agent_id: Seq<char>,
    agent_name: Seq<char>,
) -> Option<IncomingMessageV> {
    if e.src == agent_id || e.src == agent_name {
        None
    } else if !is_dm_for_agent_spec(e, agent_id) {
        None
    } else {
        match payload_text_spec(e.payload) {
            None => None,
            Some(text) => match e.session {
                None => None,
                Some(session_id) => Some(
                    IncomingMessageV {
                        session_id: session_id,
                        message_id: e.id,
                        src: e.src,
                        src_name: codex_str_spec(e.payload, "sender_name"@),
                        text: text,
                        kind: payload_kind_spec(e.payload),
                        conversation_id: match codex_str_spec(e.payload, "conversation_id"@) {
                            Some(c) => c,
                            None => e.id,
                        },
                        conversation_owner: match codex_str_spec(
                            e.payload,
                            "conversation_owner"@,
                        ) {
                            Some(o) => o,
                            None => e.src,
                        },
                        parent_message_id: codex_str_spec(e.payload, "parent_message_id"@),
                    },
                ),
            },
        }
    }
}

/// Builds the inbound message an envelope becomes for this agent, if any.
/// An envelope whose `src` is the agent's own id is never surfaced.
pub fn build_incoming_message(
    envelope: &WeaveEnvelope,
    agent_id: &str,
    agent_name: &str,
) -> (r: Option<WeaveIncomingMessage>)
    ensures
        match r {
            Some(m) => incoming_message_spec(envelope@, agent_id@, agent_name@) == Some(m@),
            None => incoming_message_spec(envelope@, agent_id@, agent_name@) is None,
        },
        envelope@.src == agent_id@ ==> r is None,
{
    if str_eq(envelope.src.as_str(), agent_id) || str_eq(envelope.src.as_str(), agent_name) {
        return None;
    }
    if !is_direct_message_for_agent(envelope, agent_id) {
        return None;
    }
    let text = match payload_text(envelope.payload.as_ref()) {
        Some(t) => t,
        None => {
            return None;
        },
    };
    let session_id = match &envelope.session {
        Some(s) => s.clone(),
        None => {
            return None;
        },
    };
    let src = envelope.src.clone();
    let message_id = envelope.id.clone();
    let src_name = payload_sender_name(envelope.payload.as_ref());
    let kind = payload_kind(envelope.payload.as_ref());
    let conversation_id = match payload_conversation_id(envelope.payload.as_ref()) {
        Some(c) => c,
        None => message_id.clone(),
    };
    let conversation_owner = match payload_conversation_owner(envelope.payload.as_ref()) {
        Some(o) => o,
        None => src.clone(),
    };
    let parent_message_id = payload_parent_message_id(envelope.payload.as_ref());
    Some(
        WeaveIncomingMessage {
            session_id,
            message_id,
            src,
            src_name,
            text,
            kind,
            conversation_id,
            conversation_owner,
            parent_message_id,
        },
    )
}

/// One in-flight request: the envelope id it waits on, and the caller's
/// token for delivering the resolution.
#[derive(Debug, PartialEq, Eq)]
pub struct PendingEntry {
    pub id: String,
    pub token: u64,
}

/// Where the connection stands: serving, unregistering, or closed.
#[derive(Clone, Copy, Debug, PartialEq, Eq, Structural)]
pub enum MuxPhase {
    Active,
    Draining,
    Closed,
}

/// The multiplexer's whole state: who it is, where it stands, and the
/// correlation table of in-flight requests.
#[derive(Debug)]
pub struct MuxState {
    pub session_id: String,
    pub agent_id: String,
    pub agent_name: String,
    pub remove_id: Option<String>,
    pub phase: MuxPhase,
    pub pending: Vec<PendingEntry>,
}

/// One thing that happened: a shutdown request, a caller's outgoing request,
/// the outgoing queue closing, one line arriving, a write failing for a
/// request, or the connection closing under us.
#[derive(Debug)]
pub enum MuxEvent {
    Shutdown,
    Outgoing { envelope: WeaveEnvelope, token: u64 },
    OutgoingClosed,
    Line(JsonValue),
    WriteFailed { id: String, message: String },
    ReadClosed,
}

/// One thing to do: write an envelope to the wire, resolve a caller's
/// request, surface an inbound message, or stop the task.
#[derive(Debug)]
pub enum MuxAction {
    Write(WeaveEnvelope),
    ResolveOk(u64, WeaveEnvelope),
    ResolveErr(u64, String),
    Deliver(WeaveIncomingMessage),
    Stop,
}

/// The multiset of caller tokens waiting in the correlation table.
pub open spec fn pending_tokens(s: Seq<PendingEntry>) -> vstd::multiset::Multiset<u64>
    decreases s.len(),
{
    if s.len() == 0 {
        vstd::multiset::Multiset::empty()
    } else {
        pending_tokens(s.drop_last()).insert(s.last().token)
    }
}

/// The multiset of caller tokens these actions resolve.
pub open spec fn resolved_tokens(a: Seq<MuxAction>) -> vstd::multiset::Multiset<u64>
    decreases a.len(),
{
    if a.len() == 0 {
        vstd::multiset::Multiset::empty()
    } else {
        let rest = resolved_tokens(a.drop_last());
        match a.last() {
            MuxAction::ResolveOk(t, _) => rest.insert(t),
            MuxAction::ResolveErr(t, _) => rest.insert(t),
            _ => rest,
        }
    }
}

/// The token a caller submits with this event, if any.
pub open spec fn submitted_tokens(e: MuxEvent) -> vstd::multiset::Multiset<u64> {
    match e {
        MuxEvent::Outgoing { envelope: _, token } => vstd::multiset::Multiset::empty().insert(
            token,
        ),
        _ => vstd::multiset::Multiset::empty(),
    }
}

/// Whether the actions tell the task to stop.
pub open spec fn has_stop(a: Seq<MuxAction>) -> bool {
    exists|i: int| 0 <= i < a.len() && a[i] is Stop
}

/// No two in-flight requests share an envelope id.
pub open spec fn pending_ids_distinct(s: Seq<PendingEntry>) -> bool {
    forall|i: int, j: int| 0 <= i < j < s.len() ==> s[i].id@ != s[j].id@
}

/// The multiplexer's invariant: distinct in-flight ids, and a draining
/// connection knows which reply it is waiting out.
pub open spec fn mux_wf(s: MuxState) -> bool {
    &&& pending_ids_distinct(s.pending@)
    &&& s.phase is Draining ==> s.remove_id is Some
}

proof fn lemma_resolved_push(a: Seq<MuxAction>, x: MuxAction)
    ensures
        resolved_tokens(a.push(x)) == match x {
            MuxAction::ResolveOk(t, _) => resolved_tokens(a).insert(t),
            MuxAction::ResolveErr(t, _) => resolved_tokens(a).insert(t),
            _ => resolved_tokens(a),
        },
{
    assert(a.push(x).drop_last() =~= a);
    assert(a.push(x).last() == x);
}

proof fn lemma_pending_tokens_push(s: Seq<PendingEntry>, x: PendingEntry)
    ensures
        pending_tokens(s.push(x)) == pending_tokens(s).insert(x.token),
{
    assert(s.push(x).drop_last() =~= s);
    assert(s.push(x).last() == x);
}

/// Taking one entry out of the table takes exactly its token out of the
/// waiting multiset.
proof fn lemma_pending_tokens_remove(s: Seq<PendingEntry>, k: int)
    requires
        0 <= k < s.len(),
    ensures
        pending_tokens(s) == pending_tokens(s.remove(k)).insert(s[k].token),
    decreases s.len(),
{
    if k == s.len() - 1 {
        assert(s.remove(k) =~= s.drop_last());
    } else {
        let dl = s.drop_last();
        lemma_pending_tokens_remove(dl, k);
        assert(s.remove(k).drop_last() =~= dl.remove(k));
        assert(s.remove(k).last() == s.last());
        assert(pending_tokens(s.remove(k)) == pending_tokens(dl.remove(k)).insert(s.last().token));
        assert(pending_tokens(dl.remove(k)).insert(s.last().token).insert(dl[k].token)
            =~= pending_tokens(dl.remove(k)).insert(dl[k].token).insert(s.last().token));
    }
}

/// The index of the in-flight request with this envelope id, if any.
fn find_pending(pending: &Vec<PendingEntry>, id: &str) -> (r: Option<usize>)
    ensures
        match r {
            Some(ix) => ix < pending@.len() && pending@[ix as int].id@ == id@,
            None => forall|i: int| 0 <= i < pending@.len() ==> pending@[i].id@ != id@,
        },
{
    let mut i: usize = 0;
    while i < pending.len()
        invariant
            i <= pending@.len(),
            forall|j: int| 0 <= j < i ==> pending@[j].id@ != id@,
        decreases pending@.len() - i,
    {
        if str_eq(pending[i].id.as_str(), id) {
            return Some(i);
        }
        i += 1;
    }
    None
}

/// The message every request still pending at close resolves with.
fn closed_message() -> (r: String)
    ensures
        r@ == "Weave agent connection closed"@,
{
    String::from_str("Weave agent connection closed")
}

/// Fails every request still in the table: each pending token gets exactly
/// one closed-connection resolution, and the table ends empty.
fn drain_pending(pending: &mut Vec<PendingEntry>, actions: &mut Vec<MuxAction>)
    ensures
        final(pending)@.len() == 0,
        resolved_tokens(final(actions)@) =~= resolved_tokens(old(actions)@).add(
            pending_tokens(old(pending)@),
        ),
        final(actions)@.len() >= old(actions)@.len(),
        final(actions)@.take(old(actions)@.len() as int) == old(actions)@,
        forall|k: int|
            old(actions)@.len() <= k < final(actions)@.len() ==> (#[trigger] final(actions)@[k])
                matches MuxAction::ResolveErr(_, _),
{
    proof {
        assert(resolved_tokens(actions@).add(pending_tokens(pending@)) =~= resolved_tokens(
            old(actions)@,
        ).add(pending_tokens(old(pending)@)));
        assert(actions@.take(actions@.len() as int) =~= actions@);
    }
    while pending.len() > 0
        invariant
            resolved_tokens(actions@).add(pending_tokens(pending@)) =~= resolved_tokens(
                old(actions)@,
            ).add(pending_tokens(old(pending)@)),
            actions@.len() >= old(actions)@.len(),
            actions@.take(old(actions)@.len() as int) == old(actions)@,
            forall|k: int|
                old(actions)@.len() <= k < actions@.len() ==> (#[trigger] actions@[k]) matches
                    MuxAction::ResolveErr(_, _),
        decreases pending@.len(),
    {
        let ghost prev_pending = pending@;
        let ghost prev_actions = actions@;
        let entry = pending.pop().unwrap();
        actions.push(MuxAction::ResolveErr(entry.token, closed_message()));
        proof {
            assert(prev_pending.drop_last() =~= pending@);
            lemma_resolved_push(prev_actions, actions@.last());
            assert(resolved_tokens(actions@).add(pending_tokens(pending@)) =~= resolved_tokens(
                prev_actions,
            ).add(pending_tokens(prev_pending)));
            assert(actions@.take(old(actions)@.len() as int) =~= prev_actions.take(
                old(actions)@.len() as int,
            ));
        }
    }
    proof {
        assert(pending_tokens(pending@) =~= vstd::multiset::Multiset::<u64>::empty());
        assert(resolved_tokens(actions@) =~= resolved_tokens(actions@).add(
            pending_tokens(pending@),
        ));
    }
}

/// The payload of `agent.remove`: the agent's own id.
fn remove_payload(agent_id: &str) -> (r: JsonValue)
    ensures
        obj_get_spec(r, "id"@) matches Some(JsonValue::Str(s)) && s@ == agent_id@,
        r != JsonValue::Null,
{
    let mut entries: Vec<(String, JsonValue)> = Vec::new();
    proof {
        crate::envelope::lemma_obj_get_empty();
        assert(entries@ =~= Seq::<(String, JsonValue)>::empty());
    }
    push_field(&mut entries, "id", JsonValue::Str(String::from_str(agent_id)));
    let ghost es = entries@;
    let r = JsonValue::Obj(entries);
    proof {
        assert(forall|k: Seq<char>| #[trigger] obj_get_spec(r, k) == crate::json::obj_get_entries(es, k));
    }
    r
}

/// The payload of an automatic `message.ack`: which envelope it acknowledges.
fn ack_payload(acked_id: &str) -> (r: JsonValue)
    ensures
        obj_get_spec(r, "acked"@) matches Some(JsonValue::Str(s)) && s@ == acked_id@,
        r != JsonValue::Null,
{
    let mut entries: Vec<(String, JsonValue)> = Vec::new();
    proof {
        crate::envelope::lemma_obj_get_empty();
        assert(entries@ =~= Seq::<(String, JsonValue)>::empty());
    }
    push_field(&mut entries, "acked", JsonValue::Str(String::from_str(acked_id)));
    let ghost es = entries@;
    let r = JsonValue::Obj(entries);
    proof {
        assert(forall|k: Seq<char>| #[trigger] obj_get_spec(r, k) == crate::json::obj_get_entries(es, k));
    }
    r
}

/// The string under `key` of an optional object payload, if it is there.
pub open spec fn payload_str_at(payload: Option<JsonValue>, key: Seq<char>) -> Option<Seq<char>> {
    match payload {
        Some(p) => crate::envelope::got_opt_str(obj_get_spec(p, key)),
        None => None,
    }
}

/// Whether some in-flight request answers to the decoded line's correlation
/// id.
pub open spec fn correlates(pending: Seq<PendingEntry>, e: EnvelopeV) -> bool {
    exists|ix: int| 0 <= ix < pending.len() && Some(#[trigger] pending[ix].id@) == e.corr
}

/// The id of the reply a draining connection waits out, as a view.
pub open spec fn remove_id_view(s: MuxState) -> Option<Seq<char>> {
    match s.remove_id {
        Some(r) => Some(r@),
        None => None,
    }
}

/// Multiplexer resolution completeness: across one turn, the tokens waiting
/// before, together with the one just submitted, are exactly the tokens still
/// waiting after plus the tokens resolved — so once a turn empties the table
/// (as a stopping turn must), every submitted call has been resolved, and a
/// resolution never appears out of nowhere. `mux_step` ensures the balance
/// this law starts from.
pub proof fn lemma_mux_resolution_completeness(
    before: vstd::multiset::Multiset<u64>,
    submitted: vstd::multiset::Multiset<u64>,
    after: vstd::multiset::Multiset<u64>,
    resolved: vstd::multiset::Multiset<u64>,
)
    requires
        before.add(submitted) =~= after.add(resolved),
        after =~= vstd::multiset::Multiset::empty(),
    ensures
        resolved =~= before.add(submitted),
{
}

/// One turn of the multiplexer: takes what happened and decides what to do.
/// Every caller token is accounted for exactly once — it leaves the table
/// only by being resolved, and a stop only happens with the table drained.
/// A well-formed line either resolves the one call it correlates with, or,
/// as an uncorrelated chat message, is surfaced (unless filtered) and
/// acknowledged when asked; a malformed line changes nothing; a closing
/// queue or socket, or the awaited unregistration reply, stops the task.
#[verifier::loop_isolation(false)]
pub fn mux_step(state: &mut MuxState, event: MuxEvent) -> (actions: Vec<MuxAction>)
    requires
        mux_wf(*old(state)),
    ensures
        mux_wf(*final(state)),
        final(state).session_id == old(state).session_id,
        final(state).agent_id == old(state).agent_id,
        final(state).agent_name == old(state).agent_name,
        pending_tokens(old(state).pending@).add(submitted_tokens(event)) =~= pending_tokens(
            final(state).pending@,
        ).add(resolved_tokens(actions@)),
        old(state).phase is Closed ==> final(state).phase is Closed && final(state).pending@
            == old(state).pending@ && (forall|k: int|
            0 <= k < actions@.len() ==> (#[trigger] actions@[k]) matches MuxAction::ResolveErr(
                _,
                _,
            )),
        has_stop(actions@) ==> final(state).phase is Closed && final(state).pending@.len() == 0,
        (final(state).phase is Closed && !(old(state).phase is Closed)) ==> has_stop(actions@),
        event is Shutdown && old(state).phase is Active ==> final(state).phase is Draining
            && actions@.len() == 1 && (actions@[0] matches MuxAction::Write(env) && env@.ty
            == "agent.remove"@ && env@.src == old(state).agent_id@ && env@.session == Some(
            old(state).session_id@,
        ) && payload_str_at(env@.payload, "id"@) == Some(old(state).agent_id@)
            && remove_id_view(*final(state)) == Some(env@.id)),
        event is Shutdown && !(old(state).phase is Active) ==> *final(state) == *old(state)
            && actions@.len() == 0,
        event matches MuxEvent::Outgoing { envelope, token } ==> (old(state).phase is Active
            ==> actions@.last() == MuxAction::Write(envelope) && final(state).pending@.last().id@
            == envelope@.id && final(state).pending@.last().token == token),
        event matches MuxEvent::Line(j) ==> ((old(state).phase is Active && wf_envelope_json(j)
            && correlates(old(state).pending@, decoded_envelope(j))) ==> exists|ix: int|
            {
                &&& 0 <= ix < old(state).pending@.len()
                &&& Some(#[trigger] old(state).pending@[ix].id@) == decoded_envelope(j).corr
                &&& actions@.len() == 1
                &&& actions@[0] matches MuxAction::ResolveOk(t, env) && t == old(
                    state,
                ).pending@[ix].token && env@ == decoded_envelope(j)
                &&& final(state).pending@ == old(state).pending@.remove(ix)
            }),
        event matches MuxEvent::Line(j) ==> ((old(state).phase is Active && wf_envelope_json(j)
            && !correlates(old(state).pending@, decoded_envelope(j)) && decoded_envelope(j).ty
            == "message.send"@) ==> {
            &&& (incoming_message_spec(
                decoded_envelope(j),
                old(state).agent_id@,
                old(state).agent_name@,
            ) matches Some(m) ==> exists|k: int|
                0 <= k < actions@.len() && ((#[trigger] actions@[k]) matches MuxAction::Deliver(
                    dm,
                ) && dm@ == m))
            &&& ((decoded_envelope(j).ack matches Some(a) && a.mode == Some("auto"@))
                ==> exists|k: int|
                0 <= k < actions@.len() && ((#[trigger] actions@[k]) matches MuxAction::Write(w)
                    && w@.ty == "message.ack"@ && w@.src == old(state).agent_id@ && w@.session
                    == Some(old(state).session_id@) && w@.corr == Some(decoded_envelope(j).id)
                    && payload_str_at(w@.payload, "acked"@) == Some(decoded_envelope(j).id)))
        }),
        event matches MuxEvent::Line(j) ==> (!wf_envelope_json(j) ==> actions@.len() == 0
            && *final(state) == *old(state)),
        (event is OutgoingClosed || event is ReadClosed) && !(old(state).phase is Closed)
            ==> has_stop(actions@),
        event matches MuxEvent::Line(j) ==> ((old(state).phase is Draining && wf_envelope_json(j)
            && decoded_envelope(j).corr == remove_id_view(*old(state))) ==> has_stop(actions@)),
        forall|k: int|
            0 <= k < actions@.len() ==> (match #[trigger] actions@[k] {
                MuxAction::Write(env) => event is Shutdown || event matches MuxEvent::Outgoing {
                    ..
                } || (event matches MuxEvent::Line(j) && wf_envelope_json(j) && env@.ty
                    == "message.ack"@ && env@.corr == Some(decoded_envelope(j).id)),
                MuxAction::Deliver(m) => event matches MuxEvent::Line(j) && wf_envelope_json(j)
                    && Some(m@) == incoming_message_spec(
                    decoded_envelope(j),
                    old(state).agent_id@,
                    old(state).agent_name@,
                ),
                MuxAction::ResolveOk(t, env) => event matches MuxEvent::Line(j)
                    && wf_envelope_json(j) && env@ == decoded_envelope(j) && exists|ix: int|
                    0 <= ix < old(state).pending@.len() && Some(
                        #[trigger] old(state).pending@[ix].id@,
                    ) == env@.corr && old(state).pending@[ix].token == t,
                _ => true,
            }),
{
    let mut actions: Vec<MuxAction> = Vec::new();
    match event {
        MuxEvent::Shutdown => {
            match state.phase {
                MuxPhase::Active => {
                    let payload = remove_payload(state.agent_id.as_str());
                    let env = new_envelope_with_src(
                        "agent.remove",
                        state.agent_id.clone(),
                        Some(state.session_id.clone()),
                        Some(payload),
                    );
                    state.remove_id = Some(env.id.clone());
                    state.phase = MuxPhase::Draining;
                    let ghost acts_mid = actions@;
                    actions.push(MuxAction::Write(env));
                    proof {
                        lemma_resolved_push(acts_mid, actions@.last());
                    }
                },
                _ => {},
            }
        },
        MuxEvent::Outgoing { envelope, token } => {
            match state.phase {
                MuxPhase::Active => {
                    match find_pending(&state.pending, envelope.id.as_str()) {
                        Some(ix) => {
                            let ghost prev = state.pending@;
                            let old_entry = state.pending.remove(ix);
                            proof {
                                lemma_pending_tokens_remove(prev, ix as int);
                            }
                            let ghost acts_dup = actions@;
                            actions.push(MuxAction::ResolveErr(old_entry.token, closed_message()));
                            proof {
                                lemma_resolved_push(acts_dup, actions@.last());
                            }
                        },
                        None => {},
                    }
                    let ghost mid = state.pending@;
                    let ghost acts_mid = actions@;
                    state.pending.push(PendingEntry { id: envelope.id.clone(), token });
                    proof {
                        lemma_pending_tokens_push(mid, state.pending@.last());
                        lemma_resolved_push(acts_mid, MuxAction::Write(envelope));
                    }
                    actions.push(MuxAction::Write(envelope));
                },
                _ => {
                    let ghost acts_mid = actions@;
                    actions.push(MuxAction::ResolveErr(token, closed_message()));
                    proof {
                        lemma_resolved_push(acts_mid, actions@.last());
                    }
                },
            }
        },
        MuxEvent::OutgoingClosed => {
            match state.phase {
                MuxPhase::Closed => {},
                _ => {
                    drain_pending(&mut state.pending, &mut actions);
                    state.phase = MuxPhase::Closed;
                    let ghost acts_mid = actions@;
                    actions.push(MuxAction::Stop);
                    proof {
                        lemma_resolved_push(acts_mid, MuxAction::Stop);
                        assert(actions@[actions@.len() - 1] is Stop);
                    }
                },
            }
        },
        MuxEvent::ReadClosed => {
            match state.phase {
                MuxPhase::Closed => {},
                _ => {
                    drain_pending(&mut state.pending, &mut actions);
                    state.phase = MuxPhase::Closed;
                    let ghost acts_mid = actions@;
                    actions.push(MuxAction::Stop);
                    proof {
                        lemma_resolved_push(acts_mid, MuxAction::Stop);
                        assert(actions@[actions@.len() - 1] is Stop);
                    }
                },
            }
        },
        MuxEvent::WriteFailed { id, message } => {
            match state.phase {
                MuxPhase::Active => {
                    match find_pending(&state.pending, id.as_str()) {
                        Some(ix) => {
                            let ghost prev = state.pending@;
                            let entry = state.pending.remove(ix);
                            proof {
                                lemma_pending_tokens_remove(prev, ix as int);
                            }
                            let ghost acts_mid = actions@;
                            actions.push(MuxAction::ResolveErr(entry.token, message));
                            proof {
                                lemma_resolved_push(acts_mid, actions@.last());
                            }
                        },
                        None => {},
                    }
                },
                _ => {},
            }
        },
        MuxEvent::Line(j) => {
            match state.phase {
                MuxPhase::Closed => {},
                MuxPhase::Draining => {
                    match decode_envelope(j) {
                        Err(_) => {},
                        Ok(env) => {
                            let matches_remove = match (&env.corr, &state.remove_id) {
                                (Some(c), Some(r)) => str_eq(c.as_str(), r.as_str()),
                                _ => false,
                            };
                            if matches_remove {
                                drain_pending(&mut state.pending, &mut actions);
                                state.phase = MuxPhase::Closed;
                                let ghost acts_mid = actions@;
                                actions.push(MuxAction::Stop);
                                proof {
                                    lemma_resolved_push(acts_mid, MuxAction::Stop);
                                    assert(actions@[actions@.len() - 1] is Stop);
                                }
                            }
                        },
                    }
                },
                MuxPhase::Active => {
                    match decode_envelope(j) {
                        Err(_) => {},
                        Ok(env) => {
                            let corr_ix = match &env.corr {
                                Some(c) => find_pending(&state.pending, c.as_str()),
                                None => None,
                            };
                            match corr_ix {
                                Some(ix) => {
                                    let ghost prev = state.pending@;
                                    let entry = state.pending.remove(ix);
                                    proof {
                                        lemma_pending_tokens_remove(prev, ix as int);
                                    }
                                    let ghost acts_mid = actions@;
                                    actions.push(MuxAction::ResolveOk(entry.token, env));
                                    proof {
                                        lemma_resolved_push(acts_mid, actions@.last());
                                    }
                                },
                                None => {
                                    if str_eq(env.ty.as_str(), "message.send") {
                                        match build_incoming_message(
                                            &env,
                                            state.agent_id.as_str(),
                                            state.agent_name.as_str(),
                                        ) {
                                            Some(m) => {
                                                let ghost acts_mid = actions@;
                                                actions.push(MuxAction::Deliver(m));
                                                proof {
                                                    lemma_resolved_push(
                                                        acts_mid,
                                                        actions@.last(),
                                                    );
                                                }
                                            },
                                            None => {},
                                        }
                                        let auto = match &env.ack {
                                            Some(a) => match &a.mode {
                                                Some(m) => str_eq(m.as_str(), "auto"),
                                                None => false,
                                            },
                                            None => false,
                                        };
                                        if auto {
                                            let payload = ack_payload(env.id.as_str());
                                            let mut ack_req = new_envelope_with_src(
                                                "message.ack",
                                                state.agent_id.clone(),
                                                Some(state.session_id.clone()),
                                                Some(payload),
                                            );
                                            ack_req.corr = Some(env.id.clone());
                                            let ghost acts_mid = actions@;
                                            actions.push(MuxAction::Write(ack_req));
                                            proof {
                                                lemma_resolved_push(acts_mid, actions@.last());
                                            }
                                        }
                                    }
                                },
                            }
                        },
                    }
                },
            }
        },
    }
    actions
}

} // verus!
