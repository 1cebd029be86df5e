//! The envelope: the unit of wire communication, and its mapping to and from
//! the structured wire value. Decoding is tolerant: unknown keys are dropped,
//! a `null` stands for an absent optional field, and only a missing or
//! ill-typed required field refuses the envelope.
use vstd::prelude::*;
use crate::json::{obj_get_entries, obj_get_spec, JsonValue};
use crate::strutil::str_eq;
use vstd::string::{StrSliceExecFns, StringExecFns};

verus! {

/// A delivery-acknowledgement policy on a request.
#[derive(Debug, PartialEq)]
pub struct WeaveAck {
    pub mode: Option<String>,
    pub timeout_ms: Option<i64>,
}

/// The error detail of a failed response.
#[derive(Debug, PartialEq)]
pub struct WeaveErrorDetail {
    pub code: String,
    pub message: String,
    pub detail: Option<JsonValue>,
}

/// One wire message: a request, a response, or an unsolicited event.
#[derive(Debug, PartialEq)]
pub struct WeaveEnvelope {
    pub v: i64,
    pub ty: String,
    pub id: String,
    pub ts: String,
    pub src: String,
    pub dst: Option<String>,
    pub topic: Option<String>,
    pub session: Option<String>,
    pub corr: Option<String>,
    pub payload: Option<JsonValue>,
    pub ack: Option<WeaveAck>,
    pub status: Option<String>,
    pub error: Option<WeaveErrorDetail>,
}

pub ghost struct AckV {
    pub mode: Option<Seq<char>>,
    pub timeout_ms: Option<i64>,
}

pub ghost struct ErrorDetailV {
    pub code: Seq<char>,
    pub message: Seq<char>,
    pub detail: Option<JsonValue>,
}

pub ghost struct EnvelopeV {
    pub v: i64,
    pub ty: Seq<char>,
    pub id: Seq<char>,
    pub ts: Seq<char>,
    pub src: Seq<char>,
    pub dst: Option<Seq<char>>,
    pub topic: Option<Seq<char>>,
    pub session: Option<Seq<char>>,
    pub corr: Option<Seq<char>>,
    pub payload: Option<JsonValue>,
    pub ack: Option<AckV>,
    pub status: Option<Seq<char>>,
    pub error: Option<ErrorDetailV>,
}

/// The view of an optional string.
pub open spec fn opt_sv(o: Option<String>) -> Option<Seq<char>> {
    match o {
        Some(s) => Some(s@),
        None => None,
    }
}

impl View for WeaveAck {
    type V = AckV;

    open spec fn view(&self) -> AckV {
        AckV { mode: opt_sv(self.mode), timeout_ms: self.timeout_ms }
    }
}

impl View for WeaveErrorDetail {
    type V = ErrorDetailV;

    open spec fn view(&self) -> ErrorDetailV {
        ErrorDetailV { code: self.code@, message: self.message@, detail: self.detail }
    }
}

impl View for WeaveEnvelope {
    type V = EnvelopeV;

    open spec fn view(&self) -> EnvelopeV {
        EnvelopeV {
            v: self.v,
            ty: self.ty@,
            id: self.id@,
            ts: self.ts@,
            src: self.src@,
            dst: opt_sv(self.dst),
            topic: opt_sv(self.topic),
            session: opt_sv(self.session),
            corr: opt_sv(self.corr),
            payload: self.payload,
            ack: match self.ack {
                Some(ref a) => Some(a@),
                None => None,
            },
            status: opt_sv(self.status),
            error: match self.error {
                Some(ref e) => Some(e@),
                None => None,
            },
        }
    }
}

/// A required string field: present and a string.
pub open spec fn wf_str_at(j: JsonValue, k: Seq<char>) -> bool {
    obj_get_spec(j, k) matches Some(JsonValue::Str(_))
}

/// An optional string field: absent, `null`, or a string.
pub open spec fn wf_opt_str_at(j: JsonValue, k: Seq<char>) -> bool {
    match obj_get_spec(j, k) {
        None => true,
        Some(JsonValue::Null) => true,
        Some(JsonValue::Str(_)) => true,
        Some(_) => false,
    }
}

/// An acknowledgement object: optional string `mode`, optional integer
/// `timeout_ms`.
pub open spec fn wf_ack_json(a: JsonValue) -> bool {
    &&& a is Obj
    &&& wf_opt_str_at(a, "mode"@)
    &&& match obj_get_spec(a, "timeout_ms"@) {
        None => true,
        Some(JsonValue::Null) => true,
        Some(JsonValue::Int(_)) => true,
        Some(_) => false,
    }
}

/// An error object: required string `code` and `message`, free-form
/// `detail`.
pub open spec fn wf_error_json(e: JsonValue) -> bool {
    &&& e is Obj
    &&& wf_str_at(e, "code"@)
    &&& wf_str_at(e, "message"@)
}

/// A decodable envelope: integer `v`, string `type`, `id`, `ts` and `src`,
/// the optional fields each of their shape when present.
pub open spec fn wf_envelope_json(j: JsonValue) -> bool {
    &&& j is Obj
    &&& obj_get_spec(j, "v"@) matches Some(JsonValue::Int(_))
    &&& wf_str_at(j, "type"@)
    &&& wf_str_at(j, "id"@)
    &&& wf_str_at(j, "ts"@)
    &&& wf_str_at(j, "src"@)
    &&& wf_opt_str_at(j, "dst"@)
    &&& wf_opt_str_at(j, "topic"@)
    &&& wf_opt_str_at(j, "session"@)
    &&& wf_opt_str_at(j, "corr"@)
    &&& wf_opt_str_at(j, "status"@)
    &&& match obj_get_spec(j, "ack"@) {
        None => true,
        Some(JsonValue::Null) => true,
        Some(a) => wf_ack_json(a),
    }
    &&& match obj_get_spec(j, "error"@) {
        None => true,
        Some(JsonValue::Null) => true,
        Some(e) => wf_error_json(e),
    }
}

pub open spec fn got_int(o: Option<JsonValue>) -> i64 {
    match o {
        Some(JsonValue::Int(n)) => n,
        _ => 0,
    }
}

pub open spec fn got_str(o: Option<JsonValue>) -> Seq<char> {
    match o {
        Some(JsonValue::Str(s)) => s@,
        _ => Seq::empty(),
    }
}

pub open spec fn got_opt_str(o: Option<JsonValue>) -> Option<Seq<char>> {
    match o {
        Some(JsonValue::Str(s)) => Some(s@),
        _ => None,
    }
}

pub open spec fn got_opt_int(o: Option<JsonValue>) -> Option<i64> {
    match o {
        Some(JsonValue::Int(n)) => Some(n),
        _ => None,
    }
}

/// A present value, with `null` standing for absence.
pub open spec fn got_value(o: Option<JsonValue>) -> Option<JsonValue> {
    match o {
        Some(JsonValue::Null) => None,
        Some(x) => Some(x),
        None => None,
    }
}

/// The acknowledgement a well-formed ack object decodes to.
pub open spec fn decoded_ack(a: JsonValue) -> AckV {
    AckV {
        mode: got_opt_str(obj_get_spec(a, "mode"@)),
        timeout_ms: got_opt_int(obj_get_spec(a, "timeout_ms"@)),
    }
}

/// The error detail a well-formed error object decodes to.
pub open spec fn decoded_error(e: JsonValue) -> ErrorDetailV {
    ErrorDetailV {
        code: got_str(obj_get_spec(e, "code"@)),
        message: got_str(obj_get_spec(e, "message"@)),
        detail: got_value(obj_get_spec(e, "detail"@)),
    }
}

/// The envelope a well-formed wire value decodes to.
pub open spec fn decoded_envelope(j: JsonValue) -> EnvelopeV {
    EnvelopeV {
        v: got_int(obj_get_spec(j, "v"@)),
        ty: got_str(obj_get_spec(j, "type"@)),
        id: got_str(obj_get_spec(j, "id"@)),
        ts: got_str(obj_get_spec(j, "ts"@)),
        src: got_str(obj_get_spec(j, "src"@)),
        dst: got_opt_str(obj_get_spec(j, "dst"@)),
        topic: got_opt_str(obj_get_spec(j, "topic"@)),
        session: got_opt_str(obj_get_spec(j, "session"@)),
        corr: got_opt_str(obj_get_spec(j, "corr"@)),
        payload: got_value(obj_get_spec(j, "payload"@)),
        ack: match got_value(obj_get_spec(j, "ack"@)) {
            Some(a) => Some(decoded_ack(a)),
            None => None,
        },
        status: got_opt_str(obj_get_spec(j, "status"@)),
        error: match got_value(obj_get_spec(j, "error"@)) {
            Some(e) => Some(decoded_error(e)),
            None => None,
        },
    }
}

/// Looking a key up after one more entry: an earlier hit stands, else the new
/// entry answers for its own key.
pub proof fn lemma_obj_get_push(s: Seq<(String, JsonValue)>, p: (String, JsonValue))
    ensures
        forall|k: Seq<char>|
            #[trigger] obj_get_entries(s.push(p), k) == if obj_get_entries(s, k) is Some {
                obj_get_entries(s, k)
            } else if p.0@ == k {
                Some(p.1)
            } else {
                None
            },
    decreases s.len(),
{
    if s.len() == 0 {
        assert forall|k: Seq<char>|
            #[trigger] obj_get_entries(s.push(p), k) == if obj_get_entries(s, k) is Some {
                obj_get_entries(s, k)
            } else if p.0@ == k {
                Some(p.1)
            } else {
                None
            } by {
            assert(s.push(p)[0] == p);
            assert(s.push(p).drop_first() =~= Seq::<(String, JsonValue)>::empty());
            assert(obj_get_entries(Seq::<(String, JsonValue)>::empty(), k) is None);
            assert(obj_get_entries(s.push(p), k) == if p.0@ == k {
                Some(p.1)
            } else {
                obj_get_entries(Seq::<(String, JsonValue)>::empty(), k)
            });
        }
    } else {
        lemma_obj_get_push(s.drop_first(), p);
        assert forall|k: Seq<char>|
            #[trigger] obj_get_entries(s.push(p), k) == if obj_get_entries(s, k) is Some {
                obj_get_entries(s, k)
            } else if p.0@ == k {
                Some(p.1)
            } else {
                None
            } by {
            assert(s.push(p)[0] == s[0]);
            assert(s.push(p).drop_first() =~= s.drop_first().push(p));
            assert(obj_get_entries(s.push(p), k) == if s[0].0@ == k {
                Some(s[0].1)
            } else {
                obj_get_entries(s.drop_first().push(p), k)
            });
        }
    }
}

pub proof fn lemma_obj_get_empty()
    ensures
        forall|k: Seq<char>|
            #[trigger] obj_get_entries(Seq::<(String, JsonValue)>::empty(), k) is None,
{
}

/// Appends one object field and carries every key's lookup across the push.
pub(crate) fn push_field(entries: &mut Vec<(String, JsonValue)>, name: &str, value: JsonValue)
    ensures
        final(entries)@.len() == old(entries)@.len() + 1,
        forall|k: Seq<char>|
            #[trigger] obj_get_entries(final(entries)@, k) == if obj_get_entries(
                old(entries)@,
                k,
            ) is Some {
                obj_get_entries(old(entries)@, k)
            } else if name@ == k {
                Some(value)
            } else {
                None
            },
{
    let ghost prev = entries@;
    entries.push((String::from_str(name), value));
    proof {
        lemma_obj_get_push(prev, entries@.last());
        assert(entries@ =~= prev.push(entries@.last()));
    }
}

/// Reads an acknowledgement object.
#[verifier::loop_isolation(false)]
fn decode_ack(a: JsonValue) -> (r: Result<WeaveAck, String>)
    ensures
        (r is Ok) == wf_ack_json(a),
        r matches Ok(x) ==> x@ == decoded_ack(a),
{
    let entries = match a {
        JsonValue::Obj(entries) => entries,
        _ => {
            return Err(String::from_str("malformed ack"));
        },
    };
    let ghost all = entries@;
    proof {
        assert(a == JsonValue::Obj(entries));
        assert forall|k: Seq<char>| #[trigger]
            obj_get_spec(a, k) == obj_get_entries(all, k) by {}
    }
    let mut rest = entries;
    let mut slot_mode: Option<JsonValue> = None;
    let mut slot_timeout: Option<JsonValue> = None;
    let ghost mut i: int = 0;
    proof {
        lemma_obj_get_empty();
        assert(all.take(0) =~= Seq::<(String, JsonValue)>::empty());
        assert(rest@ =~= all.skip(0));
    }
    while rest.len() > 0
        invariant
            0 <= i <= all.len(),
            rest@ =~= all.skip(i),
            slot_mode == obj_get_entries(all.take(i), "mode"@),
            slot_timeout == obj_get_entries(all.take(i), "timeout_ms"@),
        decreases rest@.len(),
    {
        let (key, value) = rest.remove(0);
        proof {
            reveal_strlit("mode");
            reveal_strlit("timeout_ms");
            assert("mode"@.len() == 4);
            assert("timeout_ms"@.len() == 10);
            assert("mode"@ != "timeout_ms"@);
            assert(all.skip(i)[0] == all[i]);
            assert(rest@ =~= all.skip(i).drop_first());
            assert(all.skip(i).drop_first() =~= all.skip(i + 1));
            assert(all.take(i + 1) =~= all.take(i).push(all[i]));
            lemma_obj_get_push(all.take(i), all[i]);
                    assert(obj_get_entries(all.take(i).push(all[i]), "mode"@) == obj_get_entries(
                all.take(i + 1),
                "mode"@,
            ));
            assert(obj_get_entries(all.take(i).push(all[i]), "timeout_ms"@) == obj_get_entries(
                all.take(i + 1),
                "timeout_ms"@,
            ));
        }
        if str_eq(key.as_str(), "mode") {
            if slot_mode.is_none() {
                slot_mode = Some(value);
            }
        } else if str_eq(key.as_str(), "timeout_ms") {
            if slot_timeout.is_none() {
                slot_timeout = Some(value);
            }
        }
        proof {
            i = i + 1;
        }
    }
    proof {
        assert(all.skip(i).len() == 0);
        assert(i == all.len());
        assert(all.take(i) =~= all);
    }
    let mode = match slot_mode {
        None => None,
        Some(JsonValue::Null) => None,
        Some(JsonValue::Str(s)) => Some(s),
        Some(_) => {
            return Err(String::from_str("malformed ack"));
        },
    };
    let timeout_ms = match slot_timeout {
        None => None,
        Some(JsonValue::Null) => None,
        Some(JsonValue::Int(n)) => Some(n),
        Some(_) => {
            return Err(String::from_str("malformed ack"));
        },
    };
    Ok(WeaveAck { mode, timeout_ms })
}

/// Reads an error object.
#[verifier::loop_isolation(false)]
fn decode_error(e: JsonValue) -> (r: Result<WeaveErrorDetail, String>)
    ensures
        (r is Ok) == wf_error_json(e),
        r matches Ok(x) ==> x@ == decoded_error(e),
{
    let entries = match e {
        JsonValue::Obj(entries) => entries,
        _ => {
            return Err(String::from_str("malformed error"));
        },
    };
    let ghost all = entries@;
    proof {
        assert(e == JsonValue::Obj(entries));
        assert forall|k: Seq<char>| #[trigger]
            obj_get_spec(e, k) == obj_get_entries(all, k) by {}
    }
    let mut rest = entries;
    let mut slot_code: Option<JsonValue> = None;
    let mut slot_message: Option<JsonValue> = None;
    let mut slot_detail: Option<JsonValue> = None;
    let ghost mut i: int = 0;
    proof {
        lemma_obj_get_empty();
        assert(all.take(0) =~= Seq::<(String, JsonValue)>::empty());
        assert(rest@ =~= all.skip(0));
    }
    while rest.len() > 0
        invariant
            0 <= i <= all.len(),
            rest@ =~= all.skip(i),
            slot_code == obj_get_entries(all.take(i), "code"@),
            slot_message == obj_get_entries(all.take(i), "message"@),
            slot_detail == obj_get_entries(all.take(i), "detail"@),
        decreases rest@.len(),
    {
        let (key, value) = rest.remove(0);
        proof {
            reveal_strlit("code");
            reveal_strlit("message");
            reveal_strlit("detail");
            assert("code"@.len() == 4);
            assert("message"@.len() == 7);
            assert("detail"@.len() == 6);
            assert("code"@ != "message"@ && "code"@ != "detail"@ && "message"@ != "detail"@);
            assert(all.skip(i)[0] == all[i]);
            assert(rest@ =~= all.skip(i).drop_first());
            assert(all.skip(i).drop_first() =~= all.skip(i + 1));
            assert(all.take(i + 1) =~= all.take(i).push(all[i]));
            lemma_obj_get_push(all.take(i), all[i]);
                    assert(obj_get_entries(all.take(i).push(all[i]), "code"@) == obj_get_entries(
                all.take(i + 1),
                "code"@,
            ));
            assert(obj_get_entries(all.take(i).push(all[i]), "message"@) == obj_get_entries(
                all.take(i + 1),
                "message"@,
            ));
            assert(obj_get_entries(all.take(i).push(all[i]), "detail"@) == obj_get_entries(
                all.take(i + 1),
                "detail"@,
            ));
        }
        if str_eq(key.as_str(), "code") {
            if slot_code.is_none() {
                slot_code = Some(value);
            }
        } else if str_eq(key.as_str(), "message") {
            if slot_message.is_none() {
                slot_message = Some(value);
            }
        } else if str_eq(key.as_str(), "detail") {
            if slot_detail.is_none() {
                slot_detail = Some(value);
            }
        }
        proof {
            i = i + 1;
        }
    }
    proof {
        assert(all.skip(i).len() == 0);
        assert(i == all.len());
        assert(all.take(i) =~= all);
    }
    let code = match slot_code {
        Some(JsonValue::Str(s)) => s,
        _ => {
            return Err(String::from_str("malformed error"));
        },
    };
    let message = match slot_message {
        Some(JsonValue::Str(s)) => s,
        _ => {
            return Err(String::from_str("malformed error"));
        },
    };
    let detail = match slot_detail {
        None => None,
        Some(JsonValue::Null) => None,
        Some(x) => Some(x),
    };
    Ok(WeaveErrorDetail { code, message, detail })
}

/// Reads a wire value back into an envelope; `Ok` exactly on well-formed
/// values, and then the decoded envelope is the one the value describes.
#[verifier::loop_isolation(false)]
pub fn decode_envelope(j: JsonValue) -> (r: Result<WeaveEnvelope, String>)
    ensures
        (r is Ok) == wf_envelope_json(j),
        r matches Ok(e) ==> e@ == decoded_envelope(j),
{
    let entries = match j {
        JsonValue::Obj(entries) => entries,
        _ => {
            return Err(String::from_str("malformed envelope"));
        },
    };
    let ghost all = entries@;
    proof {
        assert(j == JsonValue::Obj(entries));
        assert forall|k: Seq<char>| #[trigger]
            obj_get_spec(j, k) == obj_get_entries(all, k) by {}
    }
    let mut rest = entries;
    let mut slot_v: Option<JsonValue> = None;
    let mut slot_type: Option<JsonValue> = None;
    let mut slot_id: Option<JsonValue> = None;
    let mut slot_ts: Option<JsonValue> = None;
    let mut slot_src: Option<JsonValue> = None;
    let mut slot_dst: Option<JsonValue> = None;
    let mut slot_topic: Option<JsonValue> = None;
    let mut slot_session: Option<JsonValue> = None;
    let mut slot_corr: Option<JsonValue> = None;
    let mut slot_payload: Option<JsonValue> = None;
    let mut slot_ack: Option<JsonValue> = None;
    let mut slot_status: Option<JsonValue> = None;
    let mut slot_error: Option<JsonValue> = None;
    let ghost mut i: int = 0;
    proof {
        lemma_obj_get_empty();
        assert(all.take(0) =~= Seq::<(String, JsonValue)>::empty());
        assert(rest@ =~= all.skip(0));
    }
    while rest.len() > 0
        invariant
            0 <= i <= all.len(),
            rest@ =~= all.skip(i),
            slot_v == obj_get_entries(all.take(i), "v"@),
            slot_type == obj_get_entries(all.take(i), "type"@),
            slot_id == obj_get_entries(all.take(i), "id"@),
            slot_ts == obj_get_entries(all.take(i), "ts"@),
            slot_src == obj_get_entries(all.take(i), "src"@),
            slot_dst == obj_get_entries(all.take(i), "dst"@),
            slot_topic == obj_get_entries(all.take(i), "topic"@),
            slot_session == obj_get_entries(all.take(i), "session"@),
            slot_corr == obj_get_entries(all.take(i), "corr"@),
            slot_payload == obj_get_entries(all.take(i), "payload"@),
            slot_ack == obj_get_entries(all.take(i), "ack"@),
            slot_status == obj_get_entries(all.take(i), "status"@),
            slot_error == obj_get_entries(all.take(i), "error"@),
        decreases rest@.len(),
    {
        let (key, value) = rest.remove(0);
        proof {
            reveal_strlit("v");
            reveal_strlit("type");
            reveal_strlit("id");
            reveal_strlit("ts");
            reveal_strlit("src");
            reveal_strlit("dst");
            reveal_strlit("topic");
            reveal_strlit("session");
            reveal_strlit("corr");
            reveal_strlit("payload");
            reveal_strlit("ack");
            reveal_strlit("status");
            reveal_strlit("error");
            assert("v"@.len() == 1);
            assert("type"@.len() == 4);
            assert("id"@.len() == 2);
            assert("ts"@.len() == 2);
            assert("src"@.len() == 3);
            assert("dst"@.len() == 3);
            assert("topic"@.len() == 5);
            assert("session"@.len() == 7);
            assert("corr"@.len() == 4);
            assert("payload"@.len() == 7);
            assert("ack"@.len() == 3);
            assert("status"@.len() == 6);
            assert("error"@.len() == 5);
            assert("id"@[0] != "ts"@[0] && "id"@ != "ts"@);
            assert("src"@[0] != "dst"@[0] && "src"@ != "dst"@);
            assert("src"@[0] != "ack"@[0] && "src"@ != "ack"@);
            assert("dst"@[0] != "ack"@[0] && "dst"@ != "ack"@);
            assert("type"@[0] != "corr"@[0] && "type"@ != "corr"@);
            assert("topic"@[0] != "error"@[0] && "topic"@ != "error"@);
            assert("session"@[0] != "payload"@[0] && "session"@ != "payload"@);
            assert(all.skip(i)[0] == all[i]);
            assert(rest@ =~= all.skip(i).drop_first());
            assert(all.skip(i).drop_first() =~= all.skip(i + 1));
            assert(all.take(i + 1) =~= all.take(i).push(all[i]));
            lemma_obj_get_push(all.take(i), all[i]);
                    assert(obj_get_entries(all.take(i).push(all[i]), "v"@) == obj_get_entries(
                all.take(i + 1),
                "v"@,
            ));
            assert(obj_get_entries(all.take(i).push(all[i]), "type"@) == obj_get_entries(
                all.take(i + 1),
                "type"@,
            ));
            assert(obj_get_entries(all.take(i).push(all[i]), "id"@) == obj_get_entries(
                all.take(i + 1),
                "id"@,
            ));
            assert(obj_get_entries(all.take(i).push(all[i]), "ts"@) == obj_get_entries(
                all.take(i + 1),
                "ts"@,
            ));
            assert(obj_get_entries(all.take(i).push(all[i]), "src"@) == obj_get_entries(
                all.take(i + 1),
                "src"@,
            ));
            assert(obj_get_entries(all.take(i).push(all[i]), "dst"@) == obj_get_entries(
                all.take(i + 1),
                "dst"@,
            ));
            assert(obj_get_entries(all.take(i).push(all[i]), "topic"@) == obj_get_entries(
                all.take(i + 1),
                "topic"@,
            ));
            assert(obj_get_entries(all.take(i).push(all[i]), "session"@) == obj_get_entries(
                all.take(i + 1),
                "session"@,
            ));
            assert(obj_get_entries(all.take(i).push(all[i]), "corr"@) == obj_get_entries(
                all.take(i + 1),
                "corr"@,
            ));
            assert(obj_get_entries(all.take(i).push(all[i]), "payload"@) == obj_get_entries(
                all.take(i + 1),
                "payload"@,
            ));
            assert(obj_get_entries(all.take(i).push(all[i]), "ack"@) == obj_get_entries(
                all.take(i + 1),
                "ack"@,
            ));
            assert(obj_get_entries(all.take(i).push(all[i]), "status"@) == obj_get_entries(
                all.take(i + 1),
                "status"@,
            ));
            assert(obj_get_entries(all.take(i).push(all[i]), "error"@) == obj_get_entries(
                all.take(i + 1),
                "error"@,
            ));
        }
        if str_eq(key.as_str(), "v") {
            if slot_v.is_none() {
                slot_v = Some(value);
            }
        } else if str_eq(key.as_str(), "type") {
            if slot_type.is_none() {
                slot_type = Some(value);
            }
        } else if str_eq(key.as_str(), "id") {
            if slot_id.is_none() {
                slot_id = Some(value);
            }
        } else if str_eq(key.as_str(), "ts") {
            if slot_ts.is_none() {
                slot_ts = Some(value);
            }
        } else if str_eq(key.as_str(), "src") {
            if slot_src.is_none() {
                slot_src = Some(value);
            }
        } else if str_eq(key.as_str(), "dst") {
            if slot_dst.is_none() {
                slot_dst = Some(value);
            }
        } else if str_eq(key.as_str(), "topic") {
            if slot_topic.is_none() {
                slot_topic = Some(value);
            }
        } else if str_eq(key.as_str(), "session") {
            if slot_session.is_none() {
                slot_session = Some(value);
            }
        } else if str_eq(key.as_str(), "corr") {
            if slot_corr.is_none() {
                slot_corr = Some(value);
            }
        } else if str_eq(key.as_str(), "payload") {
            if slot_payload.is_none() {
                slot_payload = Some(value);
            }
        } else if str_eq(key.as_str(), "ack") {
            if slot_ack.is_none() {
                slot_ack = Some(value);
            }
        } else if str_eq(key.as_str(), "status") {
            if slot_status.is_none() {
                slot_status = Some(value);
            }
        } else if str_eq(key.as_str(), "error") {
            if slot_error.is_none() {
                slot_error = Some(value);
            }
        }
        proof {
            i = i + 1;
        }
    }
    proof {
        assert(all.skip(i).len() == 0);
        assert(i == all.len());
        assert(all.take(i) =~= all);
    }
    let v = match slot_v {
        Some(JsonValue::Int(n)) => n,
        _ => {
            return Err(String::from_str("malformed envelope"));
        },
    };
    let ty = match slot_type {
        Some(JsonValue::Str(s)) => s,
        _ => {
            return Err(String::from_str("malformed envelope"));
        },
    };
    let id = match slot_id {
        Some(JsonValue::Str(s)) => s,
        _ => {
            return Err(String::from_str("malformed envelope"));
        },
    };
    let ts = match slot_ts {
        Some(JsonValue::Str(s)) => s,
        _ => {
            return Err(String::from_str("malformed envelope"));
        },
    };
    let src = match slot_src {
        Some(JsonValue::Str(s)) => s,
        _ => {
            return Err(String::from_str("malformed envelope"));
        },
    };
    let dst = match slot_dst {
        None => None,
        Some(JsonValue::Null) => None,
        Some(JsonValue::Str(s)) => Some(s),
        Some(_) => {
            return Err(String::from_str("malformed envelope"));
        },
    };
    let topic = match slot_topic {
        None => None,
        Some(JsonValue::Null) => None,
        Some(JsonValue::Str(s)) => Some(s),
        Some(_) => {
            return Err(String::from_str("malformed envelope"));
        },
    };
    let session = match slot_session {
        None => None,
        Some(JsonValue::Null) => None,
        Some(JsonValue::Str(s)) => Some(s),
        Some(_) => {
            return Err(String::from_str("malformed envelope"));
        },
    };
    let corr = match slot_corr {
        None => None,
        Some(JsonValue::Null) => None,
        Some(JsonValue::Str(s)) => Some(s),
        Some(_) => {
            return Err(String::from_str("malformed envelope"));
        },
    };
    let status = match slot_status {
        None => None,
        Some(JsonValue::Null) => None,
        Some(JsonValue::Str(s)) => Some(s),
        Some(_) => {
            return Err(String::from_str("malformed envelope"));
        },
    };
    let payload = match slot_payload {
        None => None,
        Some(JsonValue::Null) => None,
        Some(x) => Some(x),
    };
    let ack = match slot_ack {
        None => None,
        Some(JsonValue::Null) => None,
        Some(a) => match decode_ack(a) {
            Ok(x) => Some(x),
            Err(m) => {
                return Err(m);
            },
        },
    };
    let error = match slot_error {
        None => None,
        Some(JsonValue::Null) => None,
        Some(e) => match decode_error(e) {
            Ok(x) => Some(x),
            Err(m) => {
                return Err(m);
            },
        },
    };
    let out = WeaveEnvelope {
        v,
        ty,
        id,
        ts,
        src,
        dst,
        topic,
        session,
        corr,
        payload,
        ack,
        status,
        error,
    };
    proof {
        assert(wf_envelope_json(j));
        assert(out@ == decoded_envelope(j));
    }
    Ok(out)
}

/// An envelope the wire form can carry faithfully: a present optional value
/// is never the bare `null`, which the wire cannot tell from absence.
pub open spec fn wf_envelope(e: EnvelopeV) -> bool {
    &&& e.payload != Some(JsonValue::Null)
    &&& match e.error {
        Some(d) => d.detail != Some(JsonValue::Null),
        None => true,
    }
}

/// Writes an acknowledgement as a wire object.
fn encode_ack(a: WeaveAck) -> (r: JsonValue)
    ensures
        wf_ack_json(r),
        decoded_ack(r) == a@,
{
    let ghost av = a@;
    let mut entries: Vec<(String, JsonValue)> = Vec::new();
    proof {
        lemma_obj_get_empty();
        assert(entries@ =~= Seq::<(String, JsonValue)>::empty());
    }
    let WeaveAck { mode, timeout_ms } = a;
    match mode {
        Some(s) => push_field(&mut entries, "mode", JsonValue::Str(s)),
        None => {},
    }
    match timeout_ms {
        Some(n) => push_field(&mut entries, "timeout_ms", JsonValue::Int(n)),
        None => {},
    }
    let ghost es = entries@;
    let r = JsonValue::Obj(entries);
    proof {
        reveal_strlit("mode");
        reveal_strlit("timeout_ms");
        assert("mode"@.len() == 4);
        assert("timeout_ms"@.len() == 10);
        assert(forall|k: Seq<char>| #[trigger] obj_get_spec(r, k) == obj_get_entries(es, k));
        assert(wf_ack_json(r));
        assert(decoded_ack(r) == av);
    }
    r
}

/// Writes an error detail as a wire object.
fn encode_error(d: WeaveErrorDetail) -> (r: JsonValue)
    requires
        d@.detail != Some(JsonValue::Null),
    ensures
        wf_error_json(r),
        decoded_error(r) == d@,
{
    let ghost dv = d@;
    let mut entries: Vec<(String, JsonValue)> = Vec::new();
    proof {
        lemma_obj_get_empty();
        assert(entries@ =~= Seq::<(String, JsonValue)>::empty());
    }
    let WeaveErrorDetail { code, message, detail } = d;
    push_field(&mut entries, "code", JsonValue::Str(code));
    push_field(&mut entries, "message", JsonValue::Str(message));
    match detail {
        Some(x) => push_field(&mut entries, "detail", x),
        None => {},
    }
    let ghost es = entries@;
    let r = JsonValue::Obj(entries);
    proof {
        reveal_strlit("code");
        reveal_strlit("message");
        reveal_strlit("detail");
        assert("code"@.len() == 4);
        assert("message"@.len() == 7);
        assert("detail"@.len() == 6);
        assert(forall|k: Seq<char>| #[trigger] obj_get_spec(r, k) == obj_get_entries(es, k));
        assert(wf_error_json(r));
        assert(decoded_error(r) == dv);
    }
    r
}

/// Writes an envelope as a wire object: the required fields, then each
/// optional field only when present, so that reading the object back gives
/// this very envelope.
pub fn encode_envelope(e: WeaveEnvelope) -> (r: JsonValue)
    requires
        wf_envelope(e@),
    ensures
        wf_envelope_json(r),
        decoded_envelope(r) == e@,
        e@.dst is None ==> obj_get_spec(r, "dst"@) is None,
        e@.topic is None ==> obj_get_spec(r, "topic"@) is None,
        e@.session is None ==> obj_get_spec(r, "session"@) is None,
        e@.corr is None ==> obj_get_spec(r, "corr"@) is None,
        e@.status is None ==> obj_get_spec(r, "status"@) is None,
        e@.payload is None ==> obj_get_spec(r, "payload"@) is None,
        e@.ack is None ==> obj_get_spec(r, "ack"@) is None,
        e@.error is None ==> obj_get_spec(r, "error"@) is None,
{
    let ghost ev = e@;
    let mut entries: Vec<(String, JsonValue)> = Vec::new();
    proof {
        lemma_obj_get_empty();
        assert(entries@ =~= Seq::<(String, JsonValue)>::empty());
    }
    let WeaveEnvelope {
        v,
        ty,
        id,
        ts,
        src,
        dst,
        topic,
        session,
        corr,
        payload,
        ack,
        status,
        error,
    } = e;
    push_field(&mut entries, "v", JsonValue::Int(v));
    push_field(&mut entries, "type", JsonValue::Str(ty));
    push_field(&mut entries, "id", JsonValue::Str(id));
    push_field(&mut entries, "ts", JsonValue::Str(ts));
    push_field(&mut entries, "src", JsonValue::Str(src));
    match dst {
        Some(s) => push_field(&mut entries, "dst", JsonValue::Str(s)),
        None => {},
    }
    match topic {
        Some(s) => push_field(&mut entries, "topic", JsonValue::Str(s)),
        None => {},
    }
    match session {
        Some(s) => push_field(&mut entries, "session", JsonValue::Str(s)),
        None => {},
    }
    match corr {
        Some(s) => push_field(&mut entries, "corr", JsonValue::Str(s)),
        None => {},
    }
    match payload {
        Some(x) => push_field(&mut entries, "payload", x),
        None => {},
    }
    match ack {
        Some(a) => {
            let av = encode_ack(a);
            push_field(&mut entries, "ack", av);
        },
        None => {},
    }
    match status {
        Some(s) => push_field(&mut entries, "status", JsonValue::Str(s)),
        None => {},
    }
    match error {
        Some(d) => {
            let dv = encode_error(d);
            push_field(&mut entries, "error", dv);
        },
        None => {},
    }
    let ghost es = entries@;
    let r = JsonValue::Obj(entries);
    proof {
        reveal_strlit("v");
        reveal_strlit("type");
        reveal_strlit("id");
        reveal_strlit("ts");
        reveal_strlit("src");
        reveal_strlit("dst");
        reveal_strlit("topic");
        reveal_strlit("session");
        reveal_strlit("corr");
        reveal_strlit("payload");
        reveal_strlit("ack");
        reveal_strlit("status");
        reveal_strlit("error");
        assert("v"@.len() == 1);
        assert("type"@.len() == 4);
        assert("id"@.len() == 2);
        assert("ts"@.len() == 2);
        assert("src"@.len() == 3);
        assert("dst"@.len() == 3);
        assert("topic"@.len() == 5);
        assert("session"@.len() == 7);
        assert("corr"@.len() == 4);
        assert("payload"@.len() == 7);
        assert("ack"@.len() == 3);
        assert("status"@.len() == 6);
        assert("error"@.len() == 5);
        assert("id"@[0] != "ts"@[0] && "id"@ != "ts"@);
        assert("src"@[0] != "dst"@[0] && "src"@ != "dst"@);
        assert("src"@[0] != "ack"@[0] && "src"@ != "ack"@);
        assert("dst"@[0] != "ack"@[0] && "dst"@ != "ack"@);
        assert("type"@[0] != "corr"@[0] && "type"@ != "corr"@);
        assert("topic"@[0] != "error"@[0] && "topic"@ != "error"@);
        assert("session"@[0] != "payload"@[0] && "session"@ != "payload"@);
        assert(forall|k: Seq<char>| #[trigger] obj_get_spec(r, k) == obj_get_entries(es, k));
        assert(wf_envelope_json(r));
        assert(decoded_envelope(r) == ev);
    }
    r
}

} // verus!
