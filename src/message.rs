//! Messages and transport envelopes, and their encoding as wire values.
//!
//! A message is written `{"__c": "osrfMessage", "__p": {...}}`, its
//! payload in the same hinted form. Decoding reads keys in any order.
use vstd::prelude::*;
use crate::value::{Value, lookup, without_key, lemma_lookup_without, take_field, text_of, whole_of, whole};

verus! {

/// Status codes of a `Status` message.
#[derive(Debug, Clone, Copy, PartialEq, Eq, Structural)]
pub enum StatusCode {
    Continue,
    Okay,
    Accepted,
    Complete,
    BadRequest,
    Unauthorized,
    Forbidden,
    MethodNotFound,
    Timeout,
    InternalServerError,
    NotImplemented,
    ServiceUnavailable,
}

/// The numeric value of a status code.
pub open spec fn code_number(c: StatusCode) -> u64 {
    match c {
        StatusCode::Continue => 100,
        StatusCode::Okay => 200,
        StatusCode::Accepted => 202,
        StatusCode::Complete => 205,
        StatusCode::BadRequest => 400,
        StatusCode::Unauthorized => 401,
        StatusCode::Forbidden => 403,
        StatusCode::MethodNotFound => 404,
        StatusCode::Timeout => 408,
        StatusCode::InternalServerError => 500,
        StatusCode::NotImplemented => 501,
        StatusCode::ServiceUnavailable => 503,
    }
}

/// The status code with a given number, if there is one.
pub open spec fn code_of_number(n: u64) -> Option<StatusCode> {
    if n == 100 {
        Some(StatusCode::Continue)
    } else if n == 200 {
        Some(StatusCode::Okay)
    } else if n == 202 {
        Some(StatusCode::Accepted)
    } else if n == 205 {
        Some(StatusCode::Complete)
    } else if n == 400 {
        Some(StatusCode::BadRequest)
    } else if n == 401 {
        Some(StatusCode::Unauthorized)
    } else if n == 403 {
        Some(StatusCode::Forbidden)
    } else if n == 404 {
        Some(StatusCode::MethodNotFound)
    } else if n == 408 {
        Some(StatusCode::Timeout)
    } else if n == 500 {
        Some(StatusCode::InternalServerError)
    } else if n == 501 {
        Some(StatusCode::NotImplemented)
    } else if n == 503 {
        Some(StatusCode::ServiceUnavailable)
    } else {
        None
    }
}

impl StatusCode {
    /// The numeric code.
    pub fn number(&self) -> (r: u64)
        ensures
            r == code_number(*self),
    {
        match self {
            StatusCode::Continue => 100,
            StatusCode::Okay => 200,
            StatusCode::Accepted => 202,
            StatusCode::Complete => 205,
            StatusCode::BadRequest => 400,
            StatusCode::Unauthorized => 401,
            StatusCode::Forbidden => 403,
            StatusCode::MethodNotFound => 404,
            StatusCode::Timeout => 408,
            StatusCode::InternalServerError => 500,
            StatusCode::NotImplemented => 501,
            StatusCode::ServiceUnavailable => 503,
        }
    }

    /// The status code with number `n`, if any.
    pub fn from_number(n: u64) -> (r: Option<StatusCode>)
        ensures
            r == code_of_number(n),
    {
        if n == 100 {
            Some(StatusCode::Continue)
        } else if n == 200 {
            Some(StatusCode::Okay)
        } else if n == 202 {
            Some(StatusCode::Accepted)
        } else if n == 205 {
            Some(StatusCode::Complete)
        } else if n == 400 {
            Some(StatusCode::BadRequest)
        } else if n == 401 {
            Some(StatusCode::Unauthorized)
        } else if n == 403 {
            Some(StatusCode::Forbidden)
        } else if n == 404 {
            Some(StatusCode::MethodNotFound)
        } else if n == 408 {
            Some(StatusCode::Timeout)
        } else if n == 500 {
            Some(StatusCode::InternalServerError)
        } else if n == 501 {
            Some(StatusCode::NotImplemented)
        } else if n == 503 {
            Some(StatusCode::ServiceUnavailable)
        } else {
            None
        }
    }

    /// True for codes of 400 and above: the request failed.
    pub fn is_error(&self) -> (r: bool)
        ensures
            r == (code_number(*self) >= 400),
    {
        self.number() >= 400
    }
}

/// Every status code reads back from its number.
pub proof fn lemma_code_round_trip(c: StatusCode)
    ensures
        code_of_number(code_number(c)) == Some(c),
{
}

/// A method call: its name and its parameters.
#[derive(Debug)]
pub struct MethodCall {
    pub method: String,
    pub params: Vec<Value>,
}

/// The payload of a `Status` message.
#[derive(Debug)]
pub struct Status {
    pub code: StatusCode,
    pub text: String,
    pub kind: String,
}

/// What a message says.
#[derive(Debug)]
pub enum Payload {
    Connect,
    Request(MethodCall),
    Result(Value),
    Status(Status),
    Disconnect,
}

/// One message of a conversation.
#[derive(Debug)]
pub struct Message {
    pub thread_trace: u64,
    pub payload: Payload,
    pub ingress: Option<String>,
}

/// A transport envelope: messages of one thread, with their sender and
/// recipient bus addresses and an optional log trace id.
#[derive(Debug)]
pub struct TransportMessage {
    pub to: String,
    pub from: String,
    pub thread: String,
    pub osrf_xid: Option<String>,
    pub body: Vec<Message>,
}

/// The five kinds of message.
#[derive(Debug, Clone, Copy, PartialEq, Eq, Structural)]
pub enum MessageType {
    Connect,
    Request,
    Result,
    Status,
    Disconnect,
}

/// The kind of a payload.
pub open spec fn type_of(p: Payload) -> MessageType {
    match p {
        Payload::Connect => MessageType::Connect,
        Payload::Request(_) => MessageType::Request,
        Payload::Result(_) => MessageType::Result,
        Payload::Status(_) => MessageType::Status,
        Payload::Disconnect => MessageType::Disconnect,
    }
}

/// The name a message type has on the wire.
pub open spec fn wire_type_name(t: MessageType) -> Seq<char> {
    match t {
        MessageType::Connect => "CONNECT"@,
        MessageType::Request => "REQUEST"@,
        MessageType::Result => "RESULT"@,
        MessageType::Status => "STATUS"@,
        MessageType::Disconnect => "DISCONNECT"@,
    }
}

/// The message type with a given wire name, if any.
pub open spec fn wire_type_named(n: Seq<char>) -> Option<MessageType> {
    if n == "CONNECT"@ {
        Some(MessageType::Connect)
    } else if n == "REQUEST"@ {
        Some(MessageType::Request)
    } else if n == "RESULT"@ {
        Some(MessageType::Result)
    } else if n == "STATUS"@ {
        Some(MessageType::Status)
    } else if n == "DISCONNECT"@ {
        Some(MessageType::Disconnect)
    } else {
        None
    }
}

impl Message {
    /// The kind of this message.
    pub fn mtype(&self) -> (r: MessageType)
        ensures
            r == type_of(self.payload),
    {
        match &self.payload {
            Payload::Connect => MessageType::Connect,
            Payload::Request(_) => MessageType::Request,
            Payload::Result(_) => MessageType::Result,
            Payload::Status(_) => MessageType::Status,
            Payload::Disconnect => MessageType::Disconnect,
        }
    }
}

// ---------------------------------------------------------------------
// What a value decodes to.

/// The body of a hinted object `{"__c": class, "__p": body}` and its class.
pub open spec fn hint_of(v: Value) -> Option<(Seq<char>, Seq<(String, Value)>)> {
    match v {
        Value::Object(f) => match (text_of(lookup(f@, "__c"@)), lookup(f@, "__p"@)) {
            (Some(c), Some(Value::Object(p))) => Some((c, p@)),
            _ => None,
        },
        _ => None,
    }
}

/// The method call that `v` holds.
pub open spec fn method_of(v: Option<Value>) -> Option<MethodCall> {
    match v {
        Some(v) => match hint_of(v) {
            Some((_, p)) => match (lookup(p, "method"@), lookup(p, "params"@)) {
                (Some(Value::Str(m)), Some(Value::Array(a))) => Some(MethodCall { method: m, params: a }),
                _ => None,
            },
            None => None,
        },
        None => None,
    }
}

/// The content of the result that `v` holds.
pub open spec fn result_of(v: Option<Value>) -> Option<Value> {
    match v {
        Some(v) => match hint_of(v) {
            Some((_, p)) => lookup(p, "content"@),
            None => None,
        },
        None => None,
    }
}

/// The status that `v` holds.
pub open spec fn status_of(v: Option<Value>) -> Option<Status> {
    match v {
        Some(Value::Object(f)) => match (lookup(f@, "__c"@), lookup(f@, "__p"@)) {
            (Some(Value::Str(kind)), Some(Value::Object(p))) => match (
                lookup(p@, "status"@),
                whole_of(lookup(p@, "statusCode"@)),
            ) {
                (Some(Value::Str(text)), Some(n)) => match code_of_number(n) {
                    Some(code) => Some(Status { code, text, kind }),
                    None => None,
                },
                _ => None,
            },
            _ => None,
        },
        _ => None,
    }
}

/// The payload of a message of type `t` whose payload field is `v`.
pub open spec fn payload_of(t: MessageType, v: Option<Value>) -> Option<Payload> {
    match t {
        MessageType::Connect => Some(Payload::Connect),
        MessageType::Disconnect => Some(Payload::Disconnect),
        MessageType::Request => match method_of(v) {
            Some(c) => Some(Payload::Request(c)),
            None => None,
        },
        MessageType::Result => match result_of(v) {
            Some(c) => Some(Payload::Result(c)),
            None => None,
        },
        MessageType::Status => match status_of(v) {
            Some(s) => Some(Payload::Status(s)),
            None => None,
        },
    }
}

/// The message that `v` holds, if it holds one.
pub open spec fn message_of(v: Value) -> Option<Message> {
    match hint_of(v) {
        Some((_, p)) => match (
            whole_of(lookup(p, "threadTrace"@)),
            text_of(lookup(p, "type"@)),
        ) {
            (Some(trace), Some(tn)) => match wire_type_named(tn) {
                Some(t) => match payload_of(t, lookup(p, "payload"@)) {
                    Some(payload) => Some(
                        Message {
                            thread_trace: trace,
                            payload,
                            ingress: match lookup(p, "ingress"@) {
                                Some(Value::Str(s)) => Some(s),
                                _ => None,
                            },
                        },
                    ),
                    None => None,
                },
                None => None,
            },
            _ => None,
        },
        None => None,
    }
}

/// The first field under `key` is the one at index `i`.
pub proof fn lemma_lookup_at(fields: Seq<(String, Value)>, i: int, key: Seq<char>)
    requires
        0 <= i < fields.len(),
        fields[i].0@ == key,
        forall|j: int| 0 <= j < i ==> fields[j].0@ != key,
    ensures
        lookup(fields, key) == Some(fields[i].1),
    decreases i,
{
    if i > 0 {
        let rest = fields.drop_first();
        assert forall|j: int| 0 <= j < i - 1 implies rest[j].0@ != key by {
            assert(rest[j] == fields[j + 1]);
        }
        lemma_lookup_at(rest, i - 1, key);
    }
}

/// No field is under `key`.
pub proof fn lemma_lookup_none(fields: Seq<(String, Value)>, key: Seq<char>)
    requires
        forall|j: int| 0 <= j < fields.len() ==> fields[j].0@ != key,
    ensures
        lookup(fields, key) == None::<Value>,
    decreases fields.len(),
{
    if fields.len() > 0 {
        let rest = fields.drop_first();
        assert forall|j: int| 0 <= j < rest.len() implies rest[j].0@ != key by {
            assert(rest[j] == fields[j + 1]);
        }
        lemma_lookup_none(rest, key);
    }
}

/// An owned copy of a key.
fn key(s: &str) -> (r: String)
    ensures
        r@ == s@,
{
    s.to_owned()
}

/// Splits an object into its class field and its body field.
fn take_hint(v: Value) -> (r: Option<(Option<Value>, Option<Value>)>)
    ensures
        match v {
            Value::Object(f) => r == Some((lookup(f@, "__c"@), lookup(f@, "__p"@))),
            _ => r is None,
        },
{
    match v {
        Value::Object(f) => {
            let mut f = f;
            let ghost orig = f@;
            let c = take_field(&mut f, &key("__c"));
            let p = take_field(&mut f, &key("__p"));
            proof {
                reveal_strlit("__c");
                reveal_strlit("__p");
                assert("__c"@[2] != "__p"@[2]);
                lemma_lookup_without(orig, "__c"@, "__p"@);
            }
            Some((c, p))
        },
        _ => None,
    }
}

/// The text of a string value, taken out.
fn take_text(v: Option<Value>) -> (r: Option<String>)
    ensures
        match r {
            Some(s) => v == Some(Value::Str(s)),
            None => text_of(v) is None,
        },
{
    match v {
        Some(Value::Str(s)) => Some(s),
        _ => None,
    }
}

/// A whole number value, read.
fn take_whole(v: Option<Value>) -> (r: Option<u64>)
    ensures
        r == whole_of(v),
{
    match v {
        Some(Value::Number(positive, mantissa, exponent)) => {
            if positive && exponent == 0 {
                Some(mantissa)
            } else {
                None
            }
        },
        _ => None,
    }
}

/// Decodes the method call that `v` holds.
pub fn decode_method(v: Option<Value>) -> (r: Option<MethodCall>)
    ensures
        r == method_of(v),
{
    let v = match v {
        Some(v) => v,
        None => return None,
    };
    let (c, b) = match take_hint(v) {
        Some(h) => h,
        None => return None,
    };
    if take_text(c).is_none() {
        return None;
    }
    let mut p = match b {
        Some(Value::Object(p)) => p,
        _ => return None,
    };
    let ghost orig = p@;
    let m = take_field(&mut p, &key("method"));
    let a = take_field(&mut p, &key("params"));
    proof {
        reveal_strlit("method");
        reveal_strlit("params");
        assert("method"@[0] != "params"@[0]);
        lemma_lookup_without(orig, "method"@, "params"@);
    }
    match (m, a) {
        (Some(Value::Str(m)), Some(Value::Array(a))) => Some(MethodCall { method: m, params: a }),
        _ => None,
    }
}

/// Decodes the result content that `v` holds.
pub fn decode_result(v: Option<Value>) -> (r: Option<Value>)
    ensures
        r == result_of(v),
{
    let v = match v {
        Some(v) => v,
        None => return None,
    };
    let (c, b) = match take_hint(v) {
        Some(h) => h,
        None => return None,
    };
    if take_text(c).is_none() {
        return None;
    }
    let mut p = match b {
        Some(Value::Object(p)) => p,
        _ => return None,
    };
    take_field(&mut p, &key("content"))
}

/// Decodes the status that `v` holds.
pub fn decode_status(v: Option<Value>) -> (r: Option<Status>)
    ensures
        r == status_of(v),
{
    let v = match v {
        Some(v) => v,
        None => return None,
    };
    let (c, b) = match take_hint(v) {
        Some(h) => h,
        None => return None,
    };
    let kind = match c {
        Some(Value::Str(k)) => k,
        _ => return None,
    };
    let mut p = match b {
        Some(Value::Object(p)) => p,
        _ => return None,
    };
    let ghost orig = p@;
    let t = take_field(&mut p, &key("status"));
    let n = take_field(&mut p, &key("statusCode"));
    proof {
        reveal_strlit("status");
        reveal_strlit("statusCode");
        assert("status"@.len() != "statusCode"@.len());
        lemma_lookup_without(orig, "status"@, "statusCode"@);
    }
    let text = match t {
        Some(Value::Str(t)) => t,
        _ => return None,
    };
    let n = match take_whole(n) {
        Some(n) => n,
        None => return None,
    };
    match StatusCode::from_number(n) {
        Some(code) => Some(Status { code, text, kind }),
        None => None,
    }
}

/// The message type named `n` on the wire.
fn type_from_name(n: &String) -> (r: Option<MessageType>)
    ensures
        r == wire_type_named(n@),
{
    if *n == key("CONNECT") {
        Some(MessageType::Connect)
    } else if *n == key("REQUEST") {
        Some(MessageType::Request)
    } else if *n == key("RESULT") {
        Some(MessageType::Result)
    } else if *n == key("STATUS") {
        Some(MessageType::Status)
    } else if *n == key("DISCONNECT") {
        Some(MessageType::Disconnect)
    } else {
        None
    }
}

/// Decodes the payload of a message of type `t`.
fn decode_payload(t: MessageType, v: Option<Value>) -> (r: Option<Payload>)
    ensures
        r == payload_of(t, v),
{
    match t {
        MessageType::Connect => Some(Payload::Connect),
        MessageType::Disconnect => Some(Payload::Disconnect),
        MessageType::Request => match decode_method(v) {
            Some(c) => Some(Payload::Request(c)),
            None => None,
        },
        MessageType::Result => match decode_result(v) {
            Some(c) => Some(Payload::Result(c)),
            None => None,
        },
        MessageType::Status => match decode_status(v) {
            Some(s) => Some(Payload::Status(s)),
            None => None,
        },
    }
}

/// Decodes the message that `v` holds; `None` where it holds none.
pub fn decode_message(v: Value) -> (r: Option<Message>)
    ensures
        r == message_of(v),
{
    let (c, b) = match take_hint(v) {
        Some(h) => h,
        None => return None,
    };
    if take_text(c).is_none() {
        return None;
    }
    let mut p = match b {
        Some(Value::Object(p)) => p,
        _ => return None,
    };
    let ghost p0 = p@;
    let tt = take_field(&mut p, &key("threadTrace"));
    let ghost p1 = p@;
    let ty = take_field(&mut p, &key("type"));
    let ghost p2 = p@;
    let pl = take_field(&mut p, &key("payload"));
    let ing = take_field(&mut p, &key("ingress"));
    proof {
        reveal_strlit("threadTrace");
        reveal_strlit("type");
        reveal_strlit("payload");
        reveal_strlit("ingress");
        assert("threadTrace"@.len() != "type"@.len());
        assert("threadTrace"@.len() != "payload"@.len());
        assert("threadTrace"@.len() != "ingress"@.len());
        assert("type"@.len() != "payload"@.len());
        assert("type"@.len() != "ingress"@.len());
        assert("payload"@[0] != "ingress"@[0]);
        lemma_lookup_without(p0, "threadTrace"@, "type"@);
        lemma_lookup_without(p0, "threadTrace"@, "payload"@);
        lemma_lookup_without(p0, "threadTrace"@, "ingress"@);
        lemma_lookup_without(p1, "type"@, "payload"@);
        lemma_lookup_without(p1, "type"@, "ingress"@);
        lemma_lookup_without(p2, "payload"@, "ingress"@);
    }
    let trace = match take_whole(tt) {
        Some(n) => n,
        None => return None,
    };
    let tn = match take_text(ty) {
        Some(t) => t,
        None => return None,
    };
    let t = match type_from_name(&tn) {
        Some(t) => t,
        None => return None,
    };
    let payload = match decode_payload(t, pl) {
        Some(p) => p,
        None => return None,
    };
    let ingress = match ing {
        Some(Value::Str(s)) => Some(s),
        _ => None,
    };
    Some(Message { thread_trace: trace, payload, ingress })
}

// ---------------------------------------------------------------------
// How a message is written.

/// The class and the body of `v`, where `v` is exactly
/// `{"__c": class, "__p": {body}}`.
pub open spec fn hinted_parts(v: Value) -> Option<(Value, Seq<(String, Value)>)> {
    match v {
        Value::Object(f) => {
            if f@.len() == 2 && f@[0].0@ == "__c"@ && f@[1].0@ == "__p"@ {
                match f@[1].1 {
                    Value::Object(b) => Some((f@[0].1, b@)),
                    _ => None,
                }
            } else {
                None
            }
        },
        _ => None,
    }
}

/// Field `i` of `body` is `key: v`.
pub open spec fn has_entry(body: Seq<(String, Value)>, i: int, key: Seq<char>, v: Value) -> bool {
    0 <= i < body.len() && body[i].0@ == key && body[i].1 == v
}

/// Field `i` of `body` is `key: "t"`.
pub open spec fn has_text(body: Seq<(String, Value)>, i: int, key: Seq<char>, t: Seq<char>) -> bool {
    0 <= i < body.len() && body[i].0@ == key && text_of(Some(body[i].1)) == Some(t)
}

/// Whether a payload is written out (connect and disconnect carry none).
pub open spec fn carries_payload(p: Payload) -> bool {
    match p {
        Payload::Connect | Payload::Disconnect => false,
        _ => true,
    }
}

/// `v` is the wire form of payload `p`:
/// `{"__c":"osrfMethod","__p":{"method":..,"params":[..]}}`,
/// `{"__c":"osrfResult","__p":{"status":"OK","statusCode":200,"content":..}}`, or
/// `{"__c":kind,"__p":{"status":text,"statusCode":code}}`.
pub open spec fn payload_encoded(v: Value, p: Payload) -> bool {
    match (hinted_parts(v), p) {
        (Some((c, b)), Payload::Request(m)) => {
            &&& text_of(Some(c)) == Some("osrfMethod"@)
            &&& b.len() == 2
            &&& has_entry(b, 0, "method"@, Value::Str(m.method))
            &&& has_entry(b, 1, "params"@, Value::Array(m.params))
        },
        (Some((c, b)), Payload::Result(x)) => {
            &&& text_of(Some(c)) == Some("osrfResult"@)
            &&& b.len() == 3
            &&& has_text(b, 0, "status"@, "OK"@)
            &&& has_entry(b, 1, "statusCode"@, whole(200))
            &&& has_entry(b, 2, "content"@, x)
        },
        (Some((c, b)), Payload::Status(s)) => {
            &&& c == Value::Str(s.kind)
            &&& b.len() == 2
            &&& has_entry(b, 0, "status"@, Value::Str(s.text))
            &&& has_entry(b, 1, "statusCode"@, whole(code_number(s.code)))
        },
        _ => false,
    }
}

/// `v` is the wire form of message `m`:
/// `{"__c":"osrfMessage","__p":{"threadTrace":n,"type":T,"payload":..,"ingress":..}}`,
/// with no payload for connect and disconnect and no ingress where `m` has none.
pub open spec fn message_encoded(v: Value, m: Message) -> bool {
    match hinted_parts(v) {
        Some((c, b)) => {
            let n: int = if carries_payload(m.payload) { 3 } else { 2 };
            &&& text_of(Some(c)) == Some("osrfMessage"@)
            &&& has_entry(b, 0, "threadTrace"@, whole(m.thread_trace))
            &&& has_text(b, 1, "type"@, wire_type_name(type_of(m.payload)))
            &&& carries_payload(m.payload) ==> b.len() > 2 && b[2].0@ == "payload"@
                && payload_encoded(b[2].1, m.payload)
            &&& match m.ingress {
                Some(s) => b.len() == n + 1 && has_entry(b, n, "ingress"@, Value::Str(s)),
                None => b.len() == n,
            }
        },
        None => false,
    }
}

/// `{"__c": class, "__p": body}`.
fn hinted(class: Value, body: Vec<(String, Value)>) -> (r: Value)
    ensures
        hinted_parts(r) == Some((class, body@)),
{
    let mut f: Vec<(String, Value)> = Vec::new();
    f.push((key("__c"), class));
    f.push((key("__p"), Value::Object(body)));
    Value::Object(f)
}

/// A string value.
fn text(s: &str) -> (r: Value)
    ensures
        text_of(Some(r)) == Some(s@),
{
    Value::Str(key(s))
}

/// A whole number value.
fn number(n: u64) -> (r: Value)
    ensures
        r == whole(n),
{
    Value::Number(true, n, 0)
}

/// The wire name of a message type.
fn type_text(t: MessageType) -> (r: Value)
    ensures
        text_of(Some(r)) == Some(wire_type_name(t)),
{
    match t {
        MessageType::Connect => text("CONNECT"),
        MessageType::Request => text("REQUEST"),
        MessageType::Result => text("RESULT"),
        MessageType::Status => text("STATUS"),
        MessageType::Disconnect => text("DISCONNECT"),
    }
}

/// Writes a payload that carries data; `None` for connect and disconnect.
pub fn encode_payload(p: Payload) -> (r: Option<Value>)
    ensures
        match r {
            Some(v) => carries_payload(p) && payload_encoded(v, p),
            None => !carries_payload(p),
        },
{
    match p {
        Payload::Connect | Payload::Disconnect => None,
        Payload::Request(m) => {
            let mut b: Vec<(String, Value)> = Vec::new();
            b.push((key("method"), Value::Str(m.method)));
            b.push((key("params"), Value::Array(m.params)));
            Some(hinted(text("osrfMethod"), b))
        },
        Payload::Result(x) => {
            let mut b: Vec<(String, Value)> = Vec::new();
            b.push((key("status"), text("OK")));
            b.push((key("statusCode"), number(200)));
            b.push((key("content"), x));
            Some(hinted(text("osrfResult"), b))
        },
        Payload::Status(s) => {
            let n = s.code.number();
            let mut b: Vec<(String, Value)> = Vec::new();
            b.push((key("status"), Value::Str(s.text)));
            b.push((key("statusCode"), number(n)));
            Some(hinted(Value::Str(s.kind), b))
        },
    }
}

/// Writes a message in its wire form.
pub fn encode_message(m: Message) -> (r: Value)
    ensures
        message_encoded(r, m),
{
    let t = m.mtype();
    let mut b: Vec<(String, Value)> = Vec::new();
    b.push((key("threadTrace"), number(m.thread_trace)));
    b.push((key("type"), type_text(t)));
    match encode_payload(m.payload) {
        Some(pv) => b.push((key("payload"), pv)),
        None => {},
    }
    match m.ingress {
        Some(s) => b.push((key("ingress"), Value::Str(s))),
        None => {},
    }
    hinted(text("osrfMessage"), b)
}

/// A message read back from its wire form is the message that was written.
pub proof fn lemma_message_round_trip(v: Value, m: Message)
    requires
        message_encoded(v, m),
    ensures
        message_of(v) == Some(m),
{
    reveal_strlit("__c");
    reveal_strlit("__p");
    reveal_strlit("threadTrace");
    reveal_strlit("type");
    reveal_strlit("payload");
    reveal_strlit("ingress");
    reveal_strlit("method");
    reveal_strlit("params");
    reveal_strlit("status");
    reveal_strlit("statusCode");
    reveal_strlit("content");
    let f = match v {
        Value::Object(f) => f@,
        _ => Seq::empty(),
    };
    assert("__c"@[2] != "__p"@[2]);
    lemma_lookup_at(f, 0, "__c"@);
    lemma_lookup_at(f, 1, "__p"@);
    let (_, b) = hinted_parts(v)->Some_0;
    assert("threadTrace"@.len() != "type"@.len());
    assert("threadTrace"@.len() != "payload"@.len());
    assert("threadTrace"@.len() != "ingress"@.len());
    assert("type"@.len() != "payload"@.len());
    assert("type"@.len() != "ingress"@.len());
    assert("payload"@[0] != "ingress"@[0]);
    lemma_lookup_at(b, 0, "threadTrace"@);
    lemma_lookup_at(b, 1, "type"@);
    let n: int = if carries_payload(m.payload) { 3 } else { 2 };
    if carries_payload(m.payload) {
        lemma_lookup_at(b, 2, "payload"@);
        let pv = b[2].1;
        let pf = match pv {
            Value::Object(pf) => pf@,
            _ => Seq::empty(),
        };
        lemma_lookup_at(pf, 0, "__c"@);
        lemma_lookup_at(pf, 1, "__p"@);
        let (_, pb) = hinted_parts(pv)->Some_0;
        assert("method"@[0] != "params"@[0]);
        assert("status"@.len() != "statusCode"@.len());
        assert("status"@.len() != "content"@.len());
        assert("statusCode"@.len() != "content"@.len());
        match m.payload {
            Payload::Request(_) => {
                lemma_lookup_at(pb, 0, "method"@);
                lemma_lookup_at(pb, 1, "params"@);
            },
            Payload::Result(_) => {
                lemma_lookup_at(pb, 2, "content"@);
            },
            Payload::Status(st) => {
                lemma_lookup_at(pb, 0, "status"@);
                lemma_lookup_at(pb, 1, "statusCode"@);
                lemma_code_round_trip(st.code);
            },
            _ => {},
        }
    } else {
        assert forall|j: int| 0 <= j < b.len() implies b[j].0@ != "payload"@ by {
            if j == n {
                assert(b[j].0@ == "ingress"@);
            }
        }
        lemma_lookup_none(b, "payload"@);
    }
    match m.ingress {
        Some(_) => {
            lemma_lookup_at(b, n, "ingress"@);
        },
        None => {
            assert forall|j: int| 0 <= j < b.len() implies b[j].0@ != "ingress"@ by {
                if j == 2 {
                    assert(b[j].0@ == "payload"@);
                }
            }
            lemma_lookup_none(b, "ingress"@);
        },
    }
    lemma_type_name_round_trip(type_of(m.payload));
    assert(hint_of(v) == Some(("osrfMessage"@, b)));
    assert(whole_of(lookup(b, "threadTrace"@)) == Some(m.thread_trace));
    assert(text_of(lookup(b, "type"@)) == Some(wire_type_name(type_of(m.payload))));
    assert(payload_of(type_of(m.payload), lookup(b, "payload"@)) == Some(m.payload));
}

/// Every message type reads back from its wire name.
pub proof fn lemma_type_name_round_trip(t: MessageType)
    ensures
        wire_type_named(wire_type_name(t)) == Some(t),
{
    reveal_strlit("CONNECT");
    reveal_strlit("REQUEST");
    reveal_strlit("RESULT");
    reveal_strlit("STATUS");
    reveal_strlit("DISCONNECT");
    assert("CONNECT"@[0] != "REQUEST"@[0]);
    assert("CONNECT"@[0] != "RESULT"@[0]);
    assert("CONNECT"@[0] != "STATUS"@[0]);
    assert("CONNECT"@[0] != "DISCONNECT"@[0]);
    assert("REQUEST"@.len() != "RESULT"@.len());
    assert("REQUEST"@[0] != "STATUS"@[0]);
    assert("REQUEST"@[0] != "DISCONNECT"@[0]);
    assert("RESULT"@[0] != "STATUS"@[0]);
    assert("RESULT"@[0] != "DISCONNECT"@[0]);
    assert("STATUS"@[0] != "DISCONNECT"@[0]);
}

// ---------------------------------------------------------------------
// Transport envelopes.

/// Each value of `a` is the wire form of the message of `ms` at its index.
pub open spec fn encodes_all(a: Seq<Value>, ms: Seq<Message>) -> bool {
    a.len() == ms.len() && forall|i: int| 0 <= i < a.len() ==> #[trigger] message_encoded(a[i], ms[i])
}

/// `v` is the wire form of envelope `tm`:
/// `{"to":..,"from":..,"thread":..,"osrf_xid":..,"body":[..]}`, with no
/// `osrf_xid` where `tm` has none.
pub open spec fn envelope_encoded(v: Value, tm: TransportMessage) -> bool {
    match v {
        Value::Object(f) => {
            let n: int = if tm.osrf_xid is Some { 4 } else { 3 };
            &&& f@.len() == n + 1
            &&& has_entry(f@, 0, "to"@, Value::Str(tm.to))
            &&& has_entry(f@, 1, "from"@, Value::Str(tm.from))
            &&& has_entry(f@, 2, "thread"@, Value::Str(tm.thread))
            &&& tm.osrf_xid is Some ==> has_entry(f@, 3, "osrf_xid"@, Value::Str(tm.osrf_xid->0))
            &&& f@[n].0@ == "body"@
            &&& match f@[n].1 {
                Value::Array(a) => encodes_all(a@, tm.body@),
                _ => false,
            }
        },
        _ => false,
    }
}

/// `tm` is what `v` decodes to: its addresses, thread and trace id are
/// the strings under those keys, and each message of its body is what the
/// matching item of `body` holds.
pub open spec fn envelope_decodes(v: Value, tm: TransportMessage) -> bool {
    match v {
        Value::Object(f) => {
            &&& lookup(f@, "to"@) == Some(Value::Str(tm.to))
            &&& lookup(f@, "from"@) == Some(Value::Str(tm.from))
            &&& lookup(f@, "thread"@) == Some(Value::Str(tm.thread))
            &&& tm.osrf_xid == match lookup(f@, "osrf_xid"@) {
                Some(Value::Str(x)) => Some(x),
                _ => None,
            }
            &&& match lookup(f@, "body"@) {
                Some(Value::Array(a)) => a@.len() == tm.body@.len() && forall|i: int|
                    0 <= i < a@.len() ==> #[trigger] message_of(a@[i]) == Some(tm.body@[i]),
                _ => false,
            }
        },
        _ => false,
    }
}

/// `v` holds an envelope: an object with string `to`, `from` and
/// `thread` and a `body` array of messages.
pub open spec fn holds_envelope(v: Value) -> bool {
    match v {
        Value::Object(f) => {
            &&& text_of(lookup(f@, "to"@)) is Some
            &&& text_of(lookup(f@, "from"@)) is Some
            &&& text_of(lookup(f@, "thread"@)) is Some
            &&& match lookup(f@, "body"@) {
                Some(Value::Array(a)) => forall|i: int| 0 <= i < a@.len() ==> (#[trigger] message_of(a@[i])) is Some,
                _ => false,
            }
        },
        _ => false,
    }
}

/// Writes an envelope in its wire form.
pub fn encode_envelope(tm: TransportMessage) -> (r: Value)
    ensures
        envelope_encoded(r, tm),
{
    let TransportMessage { to, from, thread, osrf_xid, body } = tm;
    let ghost body0 = body@;
    let mut rest = body;
    let mut out: Vec<Value> = Vec::new();
    while rest.len() > 0
        invariant
            out.len() + rest.len() == body0.len(),
            rest@ == body0.subrange(out.len() as int, body0.len() as int),
            forall|j: int| 0 <= j < out.len() ==> #[trigger] message_encoded(out@[j], body0[j]),
        decreases rest.len(),
    {
        let ghost k = out.len() as int;
        let m = rest.remove(0);
        assert(m == body0[k]);
        let ghost before = out@;
        out.push(encode_message(m));
        proof {
            assert forall|j: int| 0 <= j < out.len() implies #[trigger] message_encoded(out@[j], body0[j]) by {
                if j < k {
                    assert(out@[j] == before[j]);
                }
            }
            assert(rest@ =~= body0.subrange(out.len() as int, body0.len() as int));
        }
    }
    let mut f: Vec<(String, Value)> = Vec::new();
    f.push((key("to"), Value::Str(to)));
    f.push((key("from"), Value::Str(from)));
    f.push((key("thread"), Value::Str(thread)));
    match osrf_xid {
        Some(x) => f.push((key("osrf_xid"), Value::Str(x))),
        None => {},
    }
    f.push((key("body"), Value::Array(out)));
    Value::Object(f)
}

/// Decodes the messages of an envelope's body, in order.
fn decode_body(values: Vec<Value>) -> (r: Option<Vec<Message>>)
    ensures
        match r {
            Some(ms) => ms@.len() == values@.len() && forall|i: int|
                0 <= i < values@.len() ==> #[trigger] message_of(values@[i]) == Some(ms@[i]),
            None => exists|i: int| 0 <= i < values@.len() && (#[trigger] message_of(values@[i])) is None,
        },
{
    let ghost vs = values@;
    let n = values.len();
    let mut rest = values;
    let mut out: Vec<Message> = Vec::new();
    proof {
        assert(vs.subrange(0, vs.len() as int) =~= vs);
    }
    while rest.len() > 0
        invariant
            vs == values@,
            vs.len() == n,
            out.len() + rest.len() == n,
            rest@ == vs.subrange(out.len() as int, n as int),
            forall|j: int| 0 <= j < out.len() ==> #[trigger] message_of(vs[j]) == Some(out@[j]),
        decreases rest.len(),
    {
        let ghost k = out.len() as int;
        let v = rest.remove(0);
        assert(v == vs[k]);
        let m = match decode_message(v) {
            Some(m) => m,
            None => return None,
        };
        let ghost before = out@;
        out.push(m);
        proof {
            assert forall|j: int| 0 <= j < out.len() implies #[trigger] message_of(vs[j]) == Some(out@[j]) by {
                if j < k {
                    assert(out@[j] == before[j]);
                }
            }
            assert(rest@ =~= vs.subrange(out.len() as int, n as int));
        }
    }
    Some(out)
}

/// Decodes the envelope that `v` holds; `None` where it holds none.
pub fn decode_envelope(v: Value) -> (r: Option<TransportMessage>)
    ensures
        match r {
            Some(tm) => envelope_decodes(v, tm),
            None => !holds_envelope(v),
        },
{
    let mut f = match v {
        Value::Object(f) => f,
        _ => return None,
    };
    let ghost f0 = f@;
    let to = take_field(&mut f, &key("to"));
    let ghost f1 = f@;
    let from = take_field(&mut f, &key("from"));
    let ghost f2 = f@;
    let thread = take_field(&mut f, &key("thread"));
    let ghost f3 = f@;
    let xid = take_field(&mut f, &key("osrf_xid"));
    let body = take_field(&mut f, &key("body"));
    proof {
        reveal_strlit("to");
        reveal_strlit("from");
        reveal_strlit("thread");
        reveal_strlit("osrf_xid");
        reveal_strlit("body");
        assert("to"@.len() != "from"@.len());
        assert("to"@.len() != "thread"@.len());
        assert("to"@.len() != "osrf_xid"@.len());
        assert("to"@.len() != "body"@.len());
        assert("from"@.len() != "thread"@.len());
        assert("from"@.len() != "osrf_xid"@.len());
        assert("from"@[0] != "body"@[0]);
        assert("thread"@.len() != "osrf_xid"@.len());
        assert("thread"@.len() != "body"@.len());
        assert("osrf_xid"@.len() != "body"@.len());
        lemma_lookup_without(f0, "to"@, "from"@);
        lemma_lookup_without(f0, "to"@, "thread"@);
        lemma_lookup_without(f0, "to"@, "osrf_xid"@);
        lemma_lookup_without(f0, "to"@, "body"@);
        lemma_lookup_without(f1, "from"@, "thread"@);
        lemma_lookup_without(f1, "from"@, "osrf_xid"@);
        lemma_lookup_without(f1, "from"@, "body"@);
        lemma_lookup_without(f2, "thread"@, "osrf_xid"@);
        lemma_lookup_without(f2, "thread"@, "body"@);
        lemma_lookup_without(f3, "osrf_xid"@, "body"@);
    }
    let to = match to {
        Some(Value::Str(s)) => s,
        _ => return None,
    };
    let from = match from {
        Some(Value::Str(s)) => s,
        _ => return None,
    };
    let thread = match thread {
        Some(Value::Str(s)) => s,
        _ => return None,
    };
    let items = match body {
        Some(Value::Array(a)) => a,
        _ => return None,
    };
    let body = match decode_body(items) {
        Some(b) => b,
        None => return None,
    };
    let osrf_xid = match xid {
        Some(Value::Str(x)) => Some(x),
        _ => None,
    };
    Some(TransportMessage { to, from, thread, osrf_xid, body })
}

/// An envelope read back from its wire form is the envelope that was
/// written: the same addresses, thread, trace id and messages.
pub proof fn lemma_envelope_round_trip(v: Value, tm: TransportMessage, back: TransportMessage)
    requires
        envelope_encoded(v, tm),
        envelope_decodes(v, back),
    ensures
        back.to == tm.to,
        back.from == tm.from,
        back.thread == tm.thread,
        back.osrf_xid == tm.osrf_xid,
        back.body@ == tm.body@,
{
    lemma_envelope_holds(v, tm);
    let f = match v {
        Value::Object(f) => f@,
        _ => Seq::empty(),
    };
    let a = match lookup(f, "body"@) {
        Some(Value::Array(a)) => a@,
        _ => Seq::empty(),
    };
    assert forall|i: int| 0 <= i < tm.body@.len() implies back.body@[i] == tm.body@[i] by {
        assert(message_of(a[i]) == Some(back.body@[i]));
        assert(message_of(a[i]) == Some(tm.body@[i]));
    }
    assert(back.body@ =~= tm.body@);
}

/// The wire form of an envelope decodes to it.
pub proof fn lemma_envelope_holds(v: Value, tm: TransportMessage)
    requires
        envelope_encoded(v, tm),
    ensures
        envelope_decodes(v, tm),
        holds_envelope(v),
{
    reveal_strlit("to");
    reveal_strlit("from");
    reveal_strlit("thread");
    reveal_strlit("osrf_xid");
    reveal_strlit("body");
    let f = v->Object_0@;
    let n: int = if tm.osrf_xid is Some { 4 } else { 3 };
    assert("to"@.len() != "from"@.len());
    assert("to"@.len() != "thread"@.len());
    assert("to"@.len() != "osrf_xid"@.len());
    assert("to"@.len() != "body"@.len());
    assert("from"@.len() != "thread"@.len());
    assert("from"@.len() != "osrf_xid"@.len());
    assert("from"@[0] != "body"@[0]);
    assert("thread"@.len() != "osrf_xid"@.len());
    assert("thread"@.len() != "body"@.len());
    assert("osrf_xid"@.len() != "body"@.len());
    lemma_lookup_at(f, 0, "to"@);
    lemma_lookup_at(f, 1, "from"@);
    lemma_lookup_at(f, 2, "thread"@);
    lemma_lookup_at(f, n, "body"@);
    if tm.osrf_xid is Some {
        lemma_lookup_at(f, 3, "osrf_xid"@);
    } else {
        lemma_lookup_none(f, "osrf_xid"@);
    }
    assert(f[n].1 is Array);
    let a = f[n].1->Array_0@;
    assert(encodes_all(a, tm.body@));
    assert forall|i: int| 0 <= i < a.len() implies #[trigger] message_of(a[i]) == Some(tm.body@[i]) by {
        assert(message_encoded(a[i], tm.body@[i]));
        lemma_message_round_trip(a[i], tm.body@[i]);
    }
}

} // verus!
