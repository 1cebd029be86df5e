//! The coordinator RPC surface: socket paths, request envelopes, payload
//! shapes and response interpretation. The caller opens the sockets and moves
//! the lines; everything here only decides what to send and what a response
//! means.
use vstd::prelude::*;
use crate::agents::{AgentV, WeaveAgent, WeaveSession};
use crate::envelope::{push_field, wf_envelope, EnvelopeV, WeaveEnvelope};
use crate::json::{obj_get_entries, obj_get_spec, JsonValue};
use crate::strutil::{str_eq, trim_spec, trim_str};
use vstd::string::{StrSliceExecFns, StringExecFns};

verus! {

/// The protocol version this client speaks.
pub const WEAVE_VERSION: i64 = 0;

/// The `src` one-shot RPC calls identify themselves with.
pub open spec fn request_src_spec() -> Seq<char> {
    "code-cli"@
}

/// The global coordinator socket under the weave home directory.
pub fn coord_socket_path(weave_home: &str) -> (r: String)
    ensures
        r@ == weave_home@ + "/coord.sock"@,
{
    let mut out = String::new();
    out.append(weave_home);
    out.append("/coord.sock");
    out
}

/// The per-session coordinator socket under the weave home directory.
pub fn session_socket_path(weave_home: &str, session_id: &str) -> (r: String)
    ensures
        r@ == weave_home@ + "/sessions/"@ + session_id@ + "/coord.sock"@,
{
    let mut out = String::new();
    out.append(weave_home);
    out.append("/sessions/");
    out.append(session_id);
    out.append("/coord.sock");
    proof {
        assert(out@ =~= weave_home@ + "/sessions/"@ + session_id@ + "/coord.sock"@);
    }
    out
}

/// Relies on `uuid::Uuid::new_v4` and its hyphenated `to_string`: a fresh
/// random identifier for a request envelope.
#[verifier::external_body]
fn new_request_id() -> (r: String) {
    uuid::Uuid::new_v4().to_string()
}

/// Relies on `chrono::Utc::now` and `to_rfc3339_opts`: the present moment in
/// the fixed textual encoding the wire carries.
#[verifier::external_body]
fn now_timestamp() -> (r: String) {
    chrono::Utc::now().to_rfc3339_opts(chrono::SecondsFormat::Nanos, true)
}

/// A fresh request envelope from `src`: the given verb, session and payload,
/// everything else empty; its id is newly drawn, its timestamp is now.
pub fn new_envelope_with_src(
    req_type: &str,
    src: String,
    session: Option<String>,
    payload: Option<JsonValue>,
) -> (r: WeaveEnvelope)
    requires
        payload != Some(JsonValue::Null),
    ensures
        r@.v == WEAVE_VERSION,
        r@.ty == req_type@,
        r@.src == src@,
        r@.session == crate::envelope::opt_sv(session),
        r@.payload == payload,
        r@.dst is None,
        r@.topic is None,
        r@.corr is None,
        r@.ack is None,
        r@.status is None,
        r@.error is None,
        wf_envelope(r@),
{
    WeaveEnvelope {
        v: WEAVE_VERSION,
        ty: String::from_str(req_type),
        id: new_request_id(),
        ts: now_timestamp(),
        src,
        dst: None,
        topic: None,
        session,
        corr: None,
        payload,
        ack: None,
        status: None,
        error: None,
    }
}

/// A fresh request envelope from the one-shot RPC client identity.
pub fn new_envelope(req_type: &str, session: Option<String>, payload: Option<JsonValue>) -> (r:
    WeaveEnvelope)
    requires
        payload != Some(JsonValue::Null),
    ensures
        r@.v == WEAVE_VERSION,
        r@.ty == req_type@,
        r@.src == request_src_spec(),
        r@.session == crate::envelope::opt_sv(session),
        r@.payload == payload,
        r@.dst is None,
        r@.topic is None,
        r@.corr is None,
        r@.ack is None,
        r@.status is None,
        r@.error is None,
        wf_envelope(r@),
{
    new_envelope_with_src(req_type, String::from_str("code-cli"), session, payload)
}

/// Whether `response` answers the request with id `request_id`.
pub fn is_reply_to(response: &WeaveEnvelope, request_id: &str) -> (r: bool)
    ensures
        r == (response@.corr == Some(request_id@)),
{
    match &response.corr {
        Some(corr) => str_eq(corr.as_str(), request_id),
        None => false,
    }
}

/// The generic message of a failed response that explains nothing.
pub open spec fn response_fallback_spec() -> Seq<char> {
    "Weave request failed"@
}

/// What a failed response reports: `code: message` when both are there after
/// trimming, whichever one is alone, or a fixed fallback; `None` on a
/// response that does not carry the error status.
pub open spec fn response_error_spec(e: EnvelopeV) -> Option<Seq<char>> {
    if e.status != Some("error"@) {
        None
    } else {
        match e.error {
            None => Some(response_fallback_spec()),
            Some(d) => {
                let c = trim_spec(d.code);
                let m = trim_spec(d.message);
                if c.len() > 0 && m.len() > 0 {
                    Some(c + ": "@ + m)
                } else if c.len() > 0 {
                    Some(c)
                } else if m.len() > 0 {
                    Some(m)
                } else {
                    Some(response_fallback_spec())
                }
            },
        }
    }
}

/// The message a failed response converts to.
pub fn response_error(response: &WeaveEnvelope) -> (r: Option<String>)
    ensures
        match r {
            Some(m) => response_error_spec(response@) == Some(m@),
            None => response_error_spec(response@) is None,
        },
{
    let is_error = match &response.status {
        Some(s) => str_eq(s.as_str(), "error"),
        None => false,
    };
    if !is_error {
        return None;
    }
    match &response.error {
        None => Some(String::from_str("Weave request failed")),
        Some(d) => {
            let c = trim_str(d.code.as_str());
            let m = trim_str(d.message.as_str());
            let clen = c.as_str().unicode_len();
            let mlen = m.as_str().unicode_len();
            if clen > 0 && mlen > 0 {
                let mut out = c;
                out.append(": ");
                out.append(m.as_str());
                proof {
                    assert(out@ =~= trim_spec(d.code@) + ": "@ + trim_spec(d.message@));
                }
                Some(out)
            } else if clen > 0 {
                Some(c)
            } else if mlen > 0 {
                Some(m)
            } else {
                Some(String::from_str("Weave request failed"))
            }
        },
    }
}

/// The registration payload of `agent.add`: the agent id, and its name when
/// one is given and non-blank.
pub fn agent_add_payload(agent_id: &str, name: Option<&str>) -> (r: JsonValue)
    ensures
        obj_get_spec(r, "id"@) matches Some(JsonValue::Str(s)) && s@ == agent_id@,
        match name {
            Some(n) if trim_spec(n@).len() > 0 => obj_get_spec(r, "name"@) matches Some(
                JsonValue::Str(s),
            ) && s@ == trim_spec(n@),
            _ => obj_get_spec(r, "name"@) is None,
        },
        r != JsonValue::Null,
{
    let mut entries: Vec<(String, JsonValue)> = Vec::new();
    proof {
        crate::envelope::lemma_obj_get_empty();
        assert(entries@ =~= Seq::<(String, JsonValue)>::empty());
    }
    push_field(&mut entries, "id", JsonValue::Str(String::from_str(agent_id)));
    match name {
        Some(n) => {
            let t = trim_str(n);
            if t.as_str().unicode_len() > 0 {
                push_field(&mut entries, "name", JsonValue::Str(t));
            }
        },
        None => {},
    }
    let ghost es = entries@;
    let r = JsonValue::Obj(entries);
    proof {
        reveal_strlit("id");
        reveal_strlit("name");
        assert("id"@.len() == 2);
        assert("name"@.len() == 4);
        assert(forall|k: Seq<char>| #[trigger] obj_get_spec(r, k) == obj_get_entries(es, k));
    }
    r
}

/// The rename payload of `agent.update`: the agent id and the new name.
pub fn agent_update_payload(agent_id: &str, name: &str) -> (r: JsonValue)
    ensures
        obj_get_spec(r, "id"@) matches Some(JsonValue::Str(s)) && s@ == agent_id@,
        obj_get_spec(r, "name"@) matches Some(JsonValue::Str(s)) && s@ == name@,
        r != JsonValue::Null,
{
    let mut entries: Vec<(String, JsonValue)> = Vec::new();
    proof {
        crate::envelope::lemma_obj_get_empty();
        assert(entries@ =~= Seq::<(String, JsonValue)>::empty());
    }
    push_field(&mut entries, "id", JsonValue::Str(String::from_str(agent_id)));
    push_field(&mut entries, "name", JsonValue::Str(String::from_str(name)));
    let ghost es = entries@;
    let r = JsonValue::Obj(entries);
    proof {
        reveal_strlit("id");
        reveal_strlit("name");
        assert("id"@.len() == 2);
        assert("name"@.len() == 4);
        assert(forall|k: Seq<char>| #[trigger] obj_get_spec(r, k) == obj_get_entries(es, k));
    }
    r
}

/// One parsed session or agent listing entry.
pub open spec fn session_entry_parsed(v: JsonValue) -> Option<AgentV> {
    match obj_get_spec(v, "id"@) {
        Some(JsonValue::Str(id)) => match obj_get_spec(v, "name"@) {
            Some(JsonValue::Str(nm)) => Some(
                AgentV {
                    id: id@,
                    name: if trim_spec(nm@).len() > 0 {
                        Some(trim_spec(nm@))
                    } else {
                        None
                    },
                },
            ),
            _ => None,
        },
        _ => None,
    }
}

/// One parsed agent listing entry: the name may be absent or `null`.
pub open spec fn agent_entry_parsed(v: JsonValue) -> Option<AgentV> {
    match obj_get_spec(v, "id"@) {
        Some(JsonValue::Str(id)) => match obj_get_spec(v, "name"@) {
            None => Some(AgentV { id: id@, name: None }),
            Some(JsonValue::Null) => Some(AgentV { id: id@, name: None }),
            Some(JsonValue::Str(nm)) => Some(
                AgentV {
                    id: id@,
                    name: if trim_spec(nm@).len() > 0 {
                        Some(trim_spec(nm@))
                    } else {
                        None
                    },
                },
            ),
            Some(_) => None,
        },
        _ => None,
    }
}

/// A whole session listing: every entry parsed, in order, or nothing.
pub open spec fn session_list_parsed(items: Seq<JsonValue>) -> Option<Seq<AgentV>>
    decreases items.len(),
{
    if items.len() == 0 {
        Some(Seq::empty())
    } else {
        match session_list_parsed(items.drop_last()) {
            Some(pre) => match session_entry_parsed(items.last()) {
                Some(e) => Some(pre.push(e)),
                None => None,
            },
            None => None,
        }
    }
}

/// A whole agent listing: every entry parsed, in order, or nothing.
pub open spec fn agent_list_parsed(items: Seq<JsonValue>) -> Option<Seq<AgentV>>
    decreases items.len(),
{
    if items.len() == 0 {
        Some(Seq::empty())
    } else {
        match agent_list_parsed(items.drop_last()) {
            Some(pre) => match agent_entry_parsed(items.last()) {
                Some(e) => Some(pre.push(e)),
                None => None,
            },
            None => None,
        }
    }
}

proof fn lemma_session_list_parsed_none(items: Seq<JsonValue>, i: int)
    requires
        0 <= i <= items.len(),
        session_list_parsed(items.take(i)) is None,
    ensures
        session_list_parsed(items) is None,
    decreases items.len() - i,
{
    if i == items.len() {
        assert(items.take(i) =~= items);
    } else {
        assert(items.take(i + 1).drop_last() =~= items.take(i));
        lemma_session_list_parsed_none(items, i + 1);
    }
}

proof fn lemma_agent_list_parsed_none(items: Seq<JsonValue>, i: int)
    requires
        0 <= i <= items.len(),
        agent_list_parsed(items.take(i)) is None,
    ensures
        agent_list_parsed(items) is None,
    decreases items.len() - i,
{
    if i == items.len() {
        assert(items.take(i) =~= items);
    } else {
        assert(items.take(i + 1).drop_last() =~= items.take(i));
        lemma_agent_list_parsed_none(items, i + 1);
    }
}

/// Reads one session listing entry: id and name, both required strings.
fn parse_session_entry(v: &JsonValue) -> (r: Option<WeaveSession>)
    ensures
        match r {
            Some(s) => session_entry_parsed(*v) == Some(s@),
            None => session_entry_parsed(*v) is None,
        },
{
    let id = match v.obj_get("id") {
        Some(j) => match j.as_str() {
            Some(s) => s.clone(),
            None => {
                return None;
            },
        },
        None => {
            return None;
        },
    };
    let name = match v.obj_get("name") {
        Some(j) => match j.as_str() {
            Some(s) => {
                let t = trim_str(s.as_str());
                if t.as_str().unicode_len() > 0 {
                    Some(t)
                } else {
                    None
                }
            },
            None => {
                return None;
            },
        },
        None => {
            return None;
        },
    };
    Some(WeaveSession { id, name })
}

/// Reads one agent listing entry: a required id; the name may be absent,
/// `null`, or a string, and a blank name counts as absent.
fn parse_agent_entry(v: &JsonValue) -> (r: Option<WeaveAgent>)
    ensures
        match r {
            Some(a) => agent_entry_parsed(*v) == Some(a@),
            None => agent_entry_parsed(*v) is None,
        },
{
    let id = match v.obj_get("id") {
        Some(j) => match j.as_str() {
            Some(s) => s.clone(),
            None => {
                return None;
            },
        },
        None => {
            return None;
        },
    };
    let name = match v.obj_get("name") {
        Some(j) => match j {
            JsonValue::Null => None,
            JsonValue::Str(s) => {
                let t = trim_str(s.as_str());
                if t.as_str().unicode_len() > 0 {
                    Some(t)
                } else {
                    None
                }
            },
            _ => {
                return None;
            },
        },
        None => None,
    };
    Some(WeaveAgent { id, name })
}

/// The sessions a `session.list` response carries, when it is well-formed.
pub open spec fn listed_sessions(e: EnvelopeV) -> Option<Seq<AgentV>> {
    match e.payload {
        Some(p) => match obj_get_spec(p, "sessions"@) {
            Some(JsonValue::Arr(items)) => session_list_parsed(items@),
            _ => None,
        },
        None => None,
    }
}

/// The agents an `agent.list` response carries, when it is well-formed.
pub open spec fn listed_agents(e: EnvelopeV) -> Option<Seq<AgentV>> {
    match e.payload {
        Some(p) => match obj_get_spec(p, "agents"@) {
            Some(JsonValue::Arr(items)) => agent_list_parsed(items@),
            _ => None,
        },
        None => None,
    }
}

/// The views of a vector of sessions.
pub open spec fn session_views(s: Seq<WeaveSession>) -> Seq<AgentV> {
    s.map_values(|x: WeaveSession| x@)
}

/// The views of a vector of agents.
pub open spec fn agent_list_views(s: Seq<WeaveAgent>) -> Seq<AgentV> {
    s.map_values(|x: WeaveAgent| x@)
}

/// Interprets a `session.list` response: a failed status becomes its error
/// message, and otherwise the listed sessions are returned exactly.
#[verifier::loop_isolation(false)]
pub fn parse_session_list_response(response: &WeaveEnvelope) -> (r: Result<
    Vec<WeaveSession>,
    String,
>)
    ensures
        (r is Ok) == (response_error_spec(response@) is None && listed_sessions(response@)
            is Some),
        response_error_spec(response@) matches Some(m) ==> r matches Err(e) && e@ == m,
        response_error_spec(response@) is None && response@.payload is None ==> (r matches Err(e)
            && e@ == "Weave session list response missing payload"@),
        response_error_spec(response@) is None && response@.payload is Some && listed_sessions(
            response@,
        ) is None ==> (r matches Err(e) && e@ == "Failed to parse Weave session list"@),
        r matches Ok(list) ==> Some(session_views(list@)) == listed_sessions(response@),
{
    match response_error(response) {
        Some(m) => {
            return Err(m);
        },
        None => {},
    }
    let p = match &response.payload {
        Some(p) => p,
        None => {
            return Err(String::from_str("Weave session list response missing payload"));
        },
    };
    let items = match p.obj_get("sessions") {
        Some(j) => match j {
            JsonValue::Arr(items) => items,
            _ => {
                return Err(String::from_str("Failed to parse Weave session list"));
            },
        },
        None => {
            return Err(String::from_str("Failed to parse Weave session list"));
        },
    };
    let mut out: Vec<WeaveSession> = Vec::new();
    let mut i: usize = 0;
    proof {
        assert(items@.take(0) =~= Seq::<JsonValue>::empty());
        assert(Some(session_views(out@)) =~= session_list_parsed(items@.take(0)));
    }
    while i < items.len()
        invariant
            i <= items@.len(),
            Some(session_views(out@)) == session_list_parsed(items@.take(i as int)),
        decreases items@.len() - i,
    {
        proof {
            assert(items@.take(i + 1).drop_last() =~= items@.take(i as int));
            assert(items@.take(i + 1).last() == items@[i as int]);
        }
        match parse_session_entry(&items[i]) {
            Some(s) => {
                let ghost prev = session_views(out@);
                out.push(s);
                proof {
                    assert(session_views(out@) =~= prev.push(out@.last()@));
                }
            },
            None => {
                proof {
                    lemma_session_list_parsed_none(items@, i + 1);
                }
                return Err(String::from_str("Failed to parse Weave session list"));
            },
        }
        i += 1;
    }
    proof {
        assert(items@.take(items@.len() as int) =~= items@);
    }
    Ok(out)
}

/// Interprets an `agent.list` response in the same way.
#[verifier::loop_isolation(false)]
pub fn parse_agent_list_response(response: &WeaveEnvelope) -> (r: Result<Vec<WeaveAgent>, String>)
    ensures
        (r is Ok) == (response_error_spec(response@) is None && listed_agents(response@) is Some),
        response_error_spec(response@) matches Some(m) ==> r matches Err(e) && e@ == m,
        response_error_spec(response@) is None && response@.payload is None ==> (r matches Err(e)
            && e@ == "Weave agent list response missing payload"@),
        response_error_spec(response@) is None && response@.payload is Some && listed_agents(
            response@,
        ) is None ==> (r matches Err(e) && e@ == "Failed to parse Weave agent list"@),
        r matches Ok(list) ==> Some(agent_list_views(list@)) == listed_agents(response@),
{
    match response_error(response) {
        Some(m) => {
            return Err(m);
        },
        None => {},
    }
    let p = match &response.payload {
        Some(p) => p,
        None => {
            return Err(String::from_str("Weave agent list response missing payload"));
        },
    };
    let items = match p.obj_get("agents") {
        Some(j) => match j {
            JsonValue::Arr(items) => items,
            _ => {
                return Err(String::from_str("Failed to parse Weave agent list"));
            },
        },
        None => {
            return Err(String::from_str("Failed to parse Weave agent list"));
        },
    };
    let mut out: Vec<WeaveAgent> = Vec::new();
    let mut i: usize = 0;
    proof {
        assert(items@.take(0) =~= Seq::<JsonValue>::empty());
        assert(Some(agent_list_views(out@)) =~= agent_list_parsed(items@.take(0)));
    }
    while i < items.len()
        invariant
            i <= items@.len(),
            Some(agent_list_views(out@)) == agent_list_parsed(items@.take(i as int)),
        decreases items@.len() - i,
    {
        proof {
            assert(items@.take(i + 1).drop_last() =~= items@.take(i as int));
            assert(items@.take(i + 1).last() == items@[i as int]);
        }
        match parse_agent_entry(&items[i]) {
            Some(a) => {
                let ghost prev = agent_list_views(out@);
                out.push(a);
                proof {
                    assert(agent_list_views(out@) =~= prev.push(out@.last()@));
                }
            },
            None => {
                proof {
                    lemma_agent_list_parsed_none(items@, i + 1);
                }
                return Err(String::from_str("Failed to parse Weave agent list"));
            },
        }
        i += 1;
    }
    proof {
        assert(items@.take(items@.len() as int) =~= items@);
    }
    Ok(out)
}

/// Interprets a `session.create` response: the session id it names, under
/// the name the caller asked for.
pub fn parse_create_session_response(response: &WeaveEnvelope, name: Option<String>) -> (r: Result<
    WeaveSession,
    String,
>)
    ensures
        (r is Ok) == (response_error_spec(response@) is None && response@.session is Some),
        response_error_spec(response@) matches Some(m) ==> r matches Err(e) && e@ == m,
        response_error_spec(response@) is None && response@.session is None ==> (r matches Err(e)
            && e@ == "Weave session.create response missing session id"@),
        r matches Ok(s) ==> Some(s@.id) == response@.session && s@.name
            == crate::envelope::opt_sv(name),
{
    match response_error(response) {
        Some(m) => {
            return Err(m);
        },
        None => {},
    }
    match &response.session {
        Some(sid) => Ok(WeaveSession { id: sid.clone(), name }),
        None => Err(String::from_str("Weave session.create response missing session id")),
    }
}

/// Interprets a `session.close` response: only the error status matters.
pub fn parse_close_session_response(response: &WeaveEnvelope) -> (r: Result<(), String>)
    ensures
        (r is Ok) == (response_error_spec(response@) is None),
        response_error_spec(response@) matches Some(m) ==> r matches Err(e) && e@ == m,
{
    match response_error(response) {
        Some(m) => Err(m),
        None => Ok(()),
    }
}

/// Conversation-linking metadata an outgoing message may carry.
#[derive(Debug, PartialEq, Eq)]
pub struct WeaveMessageMetadata {
    pub conversation_id: String,
    pub conversation_owner: String,
    pub parent_message_id: Option<String>,
}

pub ghost struct MessageMetadataV {
    pub conversation_id: Seq<char>,
    pub conversation_owner: Seq<char>,
    pub parent_message_id: Option<Seq<char>>,
}

impl View for WeaveMessageMetadata {
    type V = MessageMetadataV;

    open spec fn view(&self) -> MessageMetadataV {
        MessageMetadataV {
            conversation_id: self.conversation_id@,
            conversation_owner: self.conversation_owner@,
            parent_message_id: match self.parent_message_id {
                Some(ref p) => Some(p@),
                None => None,
            },
        }
    }
}

/// The payload of an outgoing chat message: the text, and under `codex` the
/// sender's name, the optional kind, and the optional conversation metadata,
/// a blank parent id treated as absent.
pub fn message_payload(
    text: String,
    sender_name: &str,
    kind: Option<&str>,
    metadata: Option<&WeaveMessageMetadata>,
) -> (r: JsonValue)
    ensures
        obj_get_spec(r, "text"@) matches Some(JsonValue::Str(s)) && s@ == text@,
        obj_get_spec(r, "codex"@) matches Some(c) && {
            &&& c is Obj
            &&& obj_get_spec(c, "sender_name"@) matches Some(JsonValue::Str(s)) && s@
                == sender_name@
            &&& match kind {
                Some(k) => obj_get_spec(c, "kind"@) matches Some(JsonValue::Str(s)) && s@ == k@,
                None => obj_get_spec(c, "kind"@) is None,
            }
            &&& match metadata {
                Some(md) => {
                    &&& obj_get_spec(c, "conversation_id"@) matches Some(JsonValue::Str(s)) && s@
                        == md.conversation_id@
                    &&& obj_get_spec(c, "conversation_owner"@) matches Some(JsonValue::Str(s))
                        && s@ == md.conversation_owner@
                    &&& match md.parent_message_id {
                        Some(ref p) if trim_spec(p@).len() > 0 => obj_get_spec(
                            c,
                            "parent_message_id"@,
                        ) matches Some(JsonValue::Str(s)) && s@ == trim_spec(p@),
                        _ => obj_get_spec(c, "parent_message_id"@) is None,
                    }
                },
                None => {
                    &&& obj_get_spec(c, "conversation_id"@) is None
                    &&& obj_get_spec(c, "conversation_owner"@) is None
                    &&& obj_get_spec(c, "parent_message_id"@) is None
                },
            }
        },
        r != JsonValue::Null,
{
    let mut codex: Vec<(String, JsonValue)> = Vec::new();
    proof {
        crate::envelope::lemma_obj_get_empty();
        assert(codex@ =~= Seq::<(String, JsonValue)>::empty());
    }
    push_field(&mut codex, "sender_name", JsonValue::Str(String::from_str(sender_name)));
    match kind {
        Some(k) => push_field(&mut codex, "kind", JsonValue::Str(String::from_str(k))),
        None => {},
    }
    match metadata {
        Some(md) => {
            push_field(&mut codex, "conversation_id", JsonValue::Str(md.conversation_id.clone()));
            push_field(
                &mut codex,
                "conversation_owner",
                JsonValue::Str(md.conversation_owner.clone()),
            );
            match &md.parent_message_id {
                Some(p) => {
                    let t = trim_str(p.as_str());
                    if t.as_str().unicode_len() > 0 {
                        push_field(&mut codex, "parent_message_id", JsonValue::Str(t));
                    }
                },
                None => {},
            }
        },
        None => {},
    }
    let ghost ces = codex@;
    let codex_obj = JsonValue::Obj(codex);
    proof {
        reveal_strlit("sender_name");
        reveal_strlit("kind");
        reveal_strlit("conversation_id");
        reveal_strlit("conversation_owner");
        reveal_strlit("parent_message_id");
        assert("sender_name"@.len() == 11);
        assert("kind"@.len() == 4);
        assert("conversation_id"@.len() == 15);
        assert("conversation_owner"@.len() == 18);
        assert("parent_message_id"@.len() == 17);
        assert(forall|k: Seq<char>| #[trigger]
            obj_get_spec(codex_obj, k) == obj_get_entries(ces, k));
    }
    let mut entries: Vec<(String, JsonValue)> = Vec::new();
    proof {
        assert(entries@ =~= Seq::<(String, JsonValue)>::empty());
    }
    push_field(&mut entries, "text", JsonValue::Str(text));
    push_field(&mut entries, "codex", codex_obj);
    let ghost es = entries@;
    let r = JsonValue::Obj(entries);
    proof {
        reveal_strlit("text");
        reveal_strlit("codex");
        assert("text"@.len() == 4);
        assert("codex"@.len() == 5);
        assert(forall|k: Seq<char>| #[trigger] obj_get_spec(r, k) == obj_get_entries(es, k));
    }
    r
}

/// A `message.send` request from an agent to one recipient; a non-blank
/// caller-chosen message id replaces the fresh one.
pub fn build_message_send(
    agent_id: &str,
    session_id: &str,
    dst: String,
    payload: JsonValue,
    message_id: Option<&str>,
) -> (r: WeaveEnvelope)
    requires
        payload != JsonValue::Null,
    ensures
        r@.ty == "message.send"@,
        r@.src == agent_id@,
        r@.session == Some(session_id@),
        r@.dst == Some(dst@),
        r@.payload == Some(payload),
        r@.corr is None,
        r@.status is None,
        match message_id {
            Some(mid) if trim_spec(mid@).len() > 0 => r@.id == trim_spec(mid@),
            _ => true,
        },
        wf_envelope(r@),
{
    let mut request = new_envelope_with_src(
        "message.send",
        String::from_str(agent_id),
        Some(String::from_str(session_id)),
        Some(payload),
    );
    match message_id {
        Some(mid) => {
            let t = trim_str(mid);
            if t.as_str().unicode_len() > 0 {
                request.id = t;
            }
        },
        None => {},
    }
    request.dst = Some(dst);
    request
}

/// An `agent.update` request renaming an agent; a blank name is refused.
pub fn build_agent_update(agent_id: &str, session_id: &str, name: &str) -> (r: Result<
    WeaveEnvelope,
    String,
>)
    ensures
        (r is Ok) == (trim_spec(name@).len() > 0),
        r matches Err(m) ==> m@ == "Weave agent name is empty"@,
        r matches Ok(env) ==> {
            &&& env@.ty == "agent.update"@
            &&& env@.src == agent_id@
            &&& env@.session == Some(session_id@)
            &&& env@.payload matches Some(p) && obj_get_spec(p, "id"@) matches Some(
                JsonValue::Str(s),
            ) && s@ == agent_id@
            &&& env@.payload matches Some(p) && obj_get_spec(p, "name"@) matches Some(
                JsonValue::Str(s),
            ) && s@ == trim_spec(name@)
            &&& wf_envelope(env@)
        },
{
    let t = trim_str(name);
    if t.as_str().unicode_len() == 0 {
        return Err(String::from_str("Weave agent name is empty"));
    }
    let payload = agent_update_payload(agent_id, t.as_str());
    Ok(
        new_envelope_with_src(
            "agent.update",
            String::from_str(agent_id),
            Some(String::from_str(session_id)),
            Some(payload),
        ),
    )
}

} // verus!
