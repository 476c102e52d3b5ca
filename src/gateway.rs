//! One websocket connection of the gateway: admission of inbound frames,
//! the backlog, the count of requests in flight, the thread cache, and
//! the shutdown timer.
//!
//! The session decides; the caller reads the websocket and the bus and
//! performs what the session hands back.
use vstd::prelude::*;
use std::collections::VecDeque;
use crate::value::{Value, lookup, field_of, text_of, take_field, lemma_lookup_without};
use crate::message::{Message, Payload, StatusCode, TransportMessage, message_of, decode_message, encode_message, message_encoded, code_number, has_entry};
use crate::json_text::{json_text, dump_json};
use crate::json_text::{read_json_result, read_json};
use crate::addr::{router_address, service_address, router_address_of, service_address_of};
use crate::cache::ThreadCache;

verus! {

/// Largest inbound text frame, in bytes.
pub const MAX_MESSAGE_SIZE: usize = 10485760;

/// Default bound on the backlog of frames not yet relayed.
pub const MAX_BACKLOG_SIZE: usize = 1000;

/// Default bound on requests in flight per connection.
pub const MAX_ACTIVE_REQUESTS: usize = 8;

/// Longest thread id, in bytes.
pub const MAX_THREAD_SIZE: usize = 256;

/// Seconds that a session may take to wind down once shutdown begins.
pub const SHUTDOWN_MAX_WAIT: u64 = 30;

/// The ingress tag that the gateway puts on each message it relays.
pub const WEBSOCKET_INGRESS: &'static str = "ws-translator-v3";

/// The length in bytes of a text (as `str::len` gives it).
pub open spec fn byte_len(s: Seq<char>) -> usize {
    vstd::utf8::encode_utf8(s).len() as usize
}

/// What became of an inbound text frame.
#[derive(Debug, Clone, Copy, PartialEq, Eq, Structural)]
pub enum FrameOutcome {
    Queued,
    TooLarge,
    BacklogFull,
}

/// Why an inbound frame was not relayed.
#[derive(Debug, Clone, Copy, PartialEq, Eq, Structural)]
pub enum RelayError {
    NotJson,
    MissingThread,
    ThreadTooLong,
    MissingService,
    EmptyBody,
    BadMessage,
    UnexpectedType,
}

/// An envelope to put on the bus. Where `router` is set, the envelope
/// goes into that router's queue, addressed to its final recipient.
#[derive(Debug)]
pub struct Relay {
    pub envelope: TransportMessage,
    pub router: Option<String>,
    /// The service that the frame named, if it named one.
    pub service: Option<String>,
}

/// The state of a session, as the contracts see it.
pub ghost struct SessionView {
    pub max_parallel: nat,
    pub max_backlog: nat,
    pub in_flight: nat,
    pub backlog: Seq<Seq<char>>,
    pub cache: Map<Seq<char>, Seq<char>>,
    pub domain: Seq<char>,
    pub address: Seq<char>,
    pub shutdown_since: Option<u64>,
}

/// The gateway side of one websocket connection.
pub struct GatewaySession {
    max_parallel: usize,
    max_backlog: usize,
    in_flight: usize,
    backlog: VecDeque<String>,
    cache: ThreadCache,
    domain: String,
    address: String,
    shutdown_since: Option<u64>,
}

impl View for GatewaySession {
    type V = SessionView;

    closed spec fn view(&self) -> SessionView {
        SessionView {
            max_parallel: self.max_parallel as nat,
            max_backlog: self.max_backlog as nat,
            in_flight: self.in_flight as nat,
            backlog: self.backlog@.map_values(|t: String| t@),
            cache: self.cache@,
            domain: self.domain@,
            address: self.address@,
            shutdown_since: self.shutdown_since,
        }
    }
}

/// The messages of a frame's `osrf_msg`: the array's items, or the one
/// message given bare.
pub open spec fn listed(v: Option<Value>) -> Seq<Value> {
    match v {
        Some(Value::Array(a)) => a@,
        Some(x) => seq![x],
        None => Seq::empty(),
    }
}

/// Every value decodes to a message.
pub open spec fn all_decode(vs: Seq<Value>) -> bool {
    forall|i: int| 0 <= i < vs.len() ==> (#[trigger] message_of(vs[i])) is Some
}

/// A message that a client may send: connect, request or disconnect.
pub open spec fn may_enter(m: Message) -> bool {
    match m.payload {
        Payload::Connect | Payload::Request(_) | Payload::Disconnect => true,
        _ => false,
    }
}

/// A message that opens work that a terminal status will close.
pub open spec fn opens(m: Message) -> bool {
    match m.payload {
        Payload::Connect | Payload::Request(_) => true,
        _ => false,
    }
}

/// How many messages of `ms` open work.
pub open spec fn count_opens(ms: Seq<Message>) -> nat
    decreases ms.len(),
{
    if ms.len() == 0 {
        0
    } else {
        count_opens(ms.drop_last()) + if opens(ms.last()) { 1nat } else { 0nat }
    }
}

/// Some message of `ms` is a disconnect.
pub open spec fn any_disconnect(ms: Seq<Message>) -> bool {
    exists|i: int| 0 <= i < ms.len() && (#[trigger] ms[i]).payload is Disconnect
}

/// Why `frame` is refused in state `s`, if it is.
pub open spec fn relay_error(s: SessionView, frame: Value) -> Option<RelayError> {
    let thread = text_of(field_of(frame, "thread"@));
    let service = text_of(field_of(frame, "service"@));
    let vs = listed(field_of(frame, "osrf_msg"@));
    if thread is None || thread->0.len() == 0 {
        Some(RelayError::MissingThread)
    } else if byte_len(thread->0) > MAX_THREAD_SIZE {
        Some(RelayError::ThreadTooLong)
    } else if !s.cache.contains_key(thread->0) && service is None {
        Some(RelayError::MissingService)
    } else if vs.len() == 0 {
        Some(RelayError::EmptyBody)
    } else if !all_decode(vs) {
        Some(RelayError::BadMessage)
    } else if exists|i: int| 0 <= i < vs.len() && !may_enter(#[trigger] message_of(vs[i])->0) {
        Some(RelayError::UnexpectedType)
    } else {
        None
    }
}

/// `m` is the message that `v` holds, tagged with the gateway's ingress.
pub open spec fn relayed_as(m: Message, v: Value) -> bool {
    &&& message_of(v) is Some
    &&& m.thread_trace == message_of(v)->0.thread_trace
    &&& m.payload == message_of(v)->0.payload
    &&& m.ingress is Some
    &&& m.ingress->0@ == WEBSOCKET_INGRESS@
}

/// `body` holds the messages of `vs`, each tagged with the gateway's ingress.
pub open spec fn relayed_body(body: Seq<Message>, vs: Seq<Value>) -> bool {
    &&& body.len() == vs.len()
    &&& forall|i: int| 0 <= i < vs.len() ==> #[trigger] relayed_as(body[i], vs[i])
}

/// The log trace id of a frame: its `log_xid`, else a fresh one.
pub open spec fn trace_of(frame: Value, fresh: Seq<char>) -> Seq<char> {
    match text_of(field_of(frame, "log_xid"@)) {
        Some(x) => x,
        None => fresh,
    }
}

/// `n + k`, held at the largest `usize`.
pub open spec fn add_capped(n: nat, k: nat) -> nat {
    if n + k > usize::MAX {
        usize::MAX as nat
    } else {
        n + k
    }
}

impl GatewaySession {
    /// The bounds hold: the backlog is within its bound.
    pub open spec fn wf(&self) -> bool {
        self@.backlog.len() <= self@.max_backlog
    }

    /// A session for a client of the bus at `address` in `domain`, with
    /// at most `max_parallel` requests in flight and the default backlog bound.
    pub fn new(domain: String, address: String, max_parallel: usize) -> (r: GatewaySession)
        ensures
            r.wf(),
            r@.max_parallel == max_parallel,
            r@.max_backlog == MAX_BACKLOG_SIZE,
            r@.in_flight == 0,
            r@.backlog.len() == 0,
            r@.cache == Map::<Seq<char>, Seq<char>>::empty(),
            r@.domain == domain@,
            r@.address == address@,
            r@.shutdown_since is None,
    {
        GatewaySession::with_backlog(domain, address, max_parallel, MAX_BACKLOG_SIZE)
    }

    /// A session as `new` makes it, with a backlog bound of `max_backlog`.
    pub fn with_backlog(domain: String, address: String, max_parallel: usize, max_backlog: usize) -> (r: GatewaySession)
        ensures
            r.wf(),
            r@.max_parallel == max_parallel,
            r@.max_backlog == max_backlog,
            r@.in_flight == 0,
            r@.backlog.len() == 0,
            r@.cache == Map::<Seq<char>, Seq<char>>::empty(),
            r@.domain == domain@,
            r@.address == address@,
            r@.shutdown_since is None,
    {
        let r = GatewaySession {
            max_parallel,
            max_backlog,
            in_flight: 0,
            backlog: VecDeque::new(),
            cache: ThreadCache::new(),
            domain,
            address,
            shutdown_since: None,
        };
        proof {
            assert(r@.backlog =~= Seq::<Seq<char>>::empty());
        }
        r
    }

    /// Requests relayed and not yet answered with a terminal status.
    pub fn in_flight(&self) -> (r: usize)
        ensures
            r == self@.in_flight,
    {
        self.in_flight
    }

    /// Frames waiting to be relayed.
    pub fn backlog_len(&self) -> (r: usize)
        ensures
            r == self@.backlog.len(),
    {
        self.backlog.len()
    }

    /// The recipient cached for `thread`.
    pub fn cached_recipient(&self, thread: &String) -> (r: Option<String>)
        ensures
            match r {
                Some(a) => self@.cache.contains_key(thread@) && self@.cache[thread@] == a@,
                None => !self@.cache.contains_key(thread@),
            },
    {
        self.cache.get(thread)
    }

    /// Admits an inbound text frame to the tail of the backlog, unless it
    /// is larger than `MAX_MESSAGE_SIZE` bytes or the backlog is full.
    pub fn accept_frame(&mut self, text: String) -> (r: FrameOutcome)
        requires
            old(self).wf(),
        ensures
            final(self).wf(),
            r == (if byte_len(text@) > MAX_MESSAGE_SIZE {
                FrameOutcome::TooLarge
            } else if old(self)@.backlog.len() >= old(self)@.max_backlog {
                FrameOutcome::BacklogFull
            } else {
                FrameOutcome::Queued
            }),
            r == FrameOutcome::Queued ==> final(self)@ == (SessionView {
                backlog: old(self)@.backlog.push(text@),
                ..old(self)@
            }),
            r != FrameOutcome::Queued ==> final(self)@ == old(self)@,
    {
        if text.as_str().len() > MAX_MESSAGE_SIZE {
            return FrameOutcome::TooLarge;
        }
        if self.backlog.len() >= self.max_backlog {
            return FrameOutcome::BacklogFull;
        }
        let ghost before = self.backlog@;
        self.backlog.push_back(text);
        proof {
            assert(self.backlog@.map_values(|t: String| t@) =~= before.map_values(|t: String| t@).push(
                text@,
            ));
        }
        FrameOutcome::Queued
    }
}

/// What relaying `frame` (`None`: text that is not json) does in state
/// `s`, ending in state `t` with result `r`.
pub open spec fn relay_outcome(
    s: SessionView,
    t: SessionView,
    frame: Option<Value>,
    fresh: Seq<char>,
    r: Result<Relay, RelayError>,
) -> bool {
    match frame {
        None => r == Err::<Relay, RelayError>(RelayError::NotJson) && t == s,
        Some(frame) => match r {
            Err(e) => relay_error(s, frame) == Some(e) && t == s,
            Ok(rel) => {
                let thread = text_of(field_of(frame, "thread"@))->0;
                &&& relay_error(s, frame) is None
                &&& rel.envelope.thread@ == thread
                &&& rel.envelope.from@ == s.address
                &&& match text_of(field_of(frame, "service"@)) {
                    Some(sv) => rel.service is Some && rel.service->0@ == sv,
                    None => rel.service is None,
                }
                &&& rel.envelope.osrf_xid is Some
                &&& rel.envelope.osrf_xid->0@ == trace_of(frame, fresh)
                &&& relayed_body(rel.envelope.body@, listed(field_of(frame, "osrf_msg"@)))
                &&& if s.cache.contains_key(thread) {
                    &&& rel.envelope.to@ == s.cache[thread]
                    &&& rel.router is None
                } else {
                    &&& rel.envelope.to@ == service_address(text_of(field_of(frame, "service"@))->0)
                    &&& rel.router is Some
                    &&& rel.router->0@ == router_address(s.domain)
                }
                &&& t == (SessionView {
                    in_flight: add_capped(s.in_flight, count_opens(rel.envelope.body@)),
                    cache: if any_disconnect(rel.envelope.body@) {
                        s.cache.remove(thread)
                    } else {
                        s.cache
                    },
                    ..s
                })
            },
        },
    }
}

/// Decodes each value into a message tagged with the gateway's ingress,
/// counting the messages that open work and noting disconnects and
/// messages a client may not send. `None` where a value holds no message.
fn relay_messages(values: Vec<Value>) -> (r: Option<(Vec<Message>, usize, bool, bool)>)
    ensures
        match r {
            None => !all_decode(values@),
            Some((body, opened, disc, bad)) => {
                &&& all_decode(values@)
                &&& relayed_body(body@, values@)
                &&& opened == count_opens(body@)
                &&& disc == any_disconnect(body@)
                &&& bad == exists|i: int| 0 <= i < values@.len() && !may_enter(#[trigger] message_of(values@[i])->0)
            },
        },
{
    let ghost vs = values@;
    let n = values.len();
    let mut list = values;
    let mut body: Vec<Message> = Vec::new();
    let mut opened: usize = 0;
    let mut disc = false;
    let mut bad = false;
    proof {
        assert(vs.subrange(0, vs.len() as int) =~= vs);
    }
    while list.len() > 0
        invariant
            vs == values@,
            vs.len() == n,
            body.len() <= vs.len(),
            list@ == vs.subrange(body.len() as int, vs.len() as int),
            forall|j: int| 0 <= j < body.len() ==> #[trigger] relayed_as(body@[j], vs[j]),
            opened == count_opens(body@),
            opened <= body.len(),
            disc == any_disconnect(body@),
            bad == exists|j: int| 0 <= j < body.len() && !may_enter(#[trigger] message_of(vs[j])->0),
        decreases list.len(),
    {
        let ghost k = body.len() as int;
        let v = list.remove(0);
        assert(v == vs[k]);
        let mut m = match decode_message(v) {
            Some(m) => m,
            None => {
                assert(message_of(vs[k]) is None);
                return None;
            },
        };
        let ghost before = body@;
        match m.payload {
            Payload::Connect | Payload::Request(_) => {
                opened = opened + 1;
            },
            Payload::Disconnect => {
                disc = true;
            },
            _ => {
                bad = true;
            },
        }
        m.ingress = Some(WEBSOCKET_INGRESS.to_owned());
        body.push(m);
        proof {
            assert(body@.drop_last() =~= before);
            assert(body@[k] == m);
            assert(relayed_as(body@[k], vs[k]));
            assert forall|j: int| 0 <= j < body.len() implies #[trigger] relayed_as(body@[j], vs[j]) by {
                if j < k {
                    assert(body@[j] == before[j]);
                }
            }
            if disc {
                if m.payload is Disconnect {
                    assert(body@[k].payload is Disconnect);
                } else {
                    let w = choose|i: int| 0 <= i < before.len() && (#[trigger] before[i]).payload is Disconnect;
                    assert(body@[w] == before[w]);
                }
            } else {
                assert forall|i: int| 0 <= i < body.len() implies !((#[trigger] body@[i]).payload is Disconnect) by {
                    if i < k {
                        assert(body@[i] == before[i]);
                    }
                }
            }
            if bad && may_enter(m) {
                let w = choose|j: int| 0 <= j < k && !may_enter(#[trigger] message_of(vs[j])->0);
                assert(0 <= w < body.len() && !may_enter(message_of(vs[w])->0));
            }
            if !bad {
                assert(may_enter(message_of(vs[k])->0));
            }
            assert(list@ =~= vs.subrange(body.len() as int, vs.len() as int));
        }
    }
    proof {
        assert forall|i: int| 0 <= i < vs.len() implies (#[trigger] message_of(vs[i])) is Some by {
            assert(relayed_as(body@[i], vs[i]));
        }
    }
    Some((body, opened, disc, bad))
}

impl GatewaySession {
    /// Relays one parsed inbound frame `{thread, service?, log_xid?, osrf_msg}`.
    ///
    /// The envelope goes to the recipient cached for the thread, or else
    /// to the service's address through the router of the local domain.
    /// Each connect or request adds one to the requests in flight; a
    /// disconnect drops the thread's cache entry. A frame that is refused
    /// changes nothing.
    pub fn relay_frame(&mut self, frame: Value, fresh_trace: String) -> (r: Result<Relay, RelayError>)
        requires
            old(self).wf(),
        ensures
            final(self).wf(),
            relay_outcome(old(self)@, final(self)@, Some(frame), fresh_trace@, r),
    {
        let mut fields = match frame {
            Value::Object(f) => f,
            _ => return Err(RelayError::MissingThread),
        };
        let ghost f0 = fields@;
        let thread_v = take_field(&mut fields, &"thread".to_owned());
        let ghost f1 = fields@;
        let xid_v = take_field(&mut fields, &"log_xid".to_owned());
        let ghost f2 = fields@;
        let list_v = take_field(&mut fields, &"osrf_msg".to_owned());
        let service_v = take_field(&mut fields, &"service".to_owned());
        proof {
            reveal_strlit("thread");
            reveal_strlit("log_xid");
            reveal_strlit("osrf_msg");
            reveal_strlit("service");
            assert("thread"@.len() != "log_xid"@.len());
            assert("thread"@.len() != "osrf_msg"@.len());
            assert("thread"@.len() != "service"@.len());
            assert("log_xid"@.len() != "osrf_msg"@.len());
            assert("log_xid"@[0] != "service"@[0]);
            assert("osrf_msg"@.len() != "service"@.len());
            lemma_lookup_without(f0, "thread"@, "log_xid"@);
            lemma_lookup_without(f0, "thread"@, "osrf_msg"@);
            lemma_lookup_without(f0, "thread"@, "service"@);
            lemma_lookup_without(f1, "log_xid"@, "osrf_msg"@);
            lemma_lookup_without(f1, "log_xid"@, "service"@);
            lemma_lookup_without(f2, "osrf_msg"@, "service"@);
        }
        let thread = match thread_v {
            Some(Value::Str(t)) => t,
            _ => return Err(RelayError::MissingThread),
        };
        if thread.as_str().is_empty() {
            return Err(RelayError::MissingThread);
        }
        if thread.as_str().len() > MAX_THREAD_SIZE {
            return Err(RelayError::ThreadTooLong);
        }
        let service = match service_v {
            Some(Value::Str(svc)) => Some(svc),
            _ => None,
        };
        let (to, router) = match self.cache.get(&thread) {
            Some(a) => (a, None),
            None => match &service {
                Some(svc) => (
                    service_address_of(svc.as_str()),
                    Some(router_address_of(self.domain.as_str())),
                ),
                None => return Err(RelayError::MissingService),
            },
        };
        let list: Vec<Value> = match list_v {
            Some(Value::Array(a)) => a,
            Some(x) => {
                let mut l: Vec<Value> = Vec::new();
                l.push(x);
                l
            },
            None => Vec::new(),
        };
        proof {
            assert(list@ =~= listed(lookup(f0, "osrf_msg"@)));
        }
        if list.len() == 0 {
            return Err(RelayError::EmptyBody);
        }
        let (body, opened, disc, bad) = match relay_messages(list) {
            Some(x) => x,
            None => return Err(RelayError::BadMessage),
        };
        if bad {
            return Err(RelayError::UnexpectedType);
        }
        let xid = match xid_v {
            Some(Value::Str(x)) => x,
            _ => fresh_trace,
        };
        self.in_flight = self.in_flight.saturating_add(opened);
        if disc {
            self.cache.remove(&thread);
        }
        let envelope = TransportMessage {
            to,
            from: self.address.clone(),
            thread,
            osrf_xid: Some(xid),
            body,
        };
        Ok(Relay { envelope, router, service })
    }
}

impl GatewaySession {
    /// Reads an inbound frame as json and relays it.
    pub fn relay_text(&mut self, text: &str, fresh_trace: String) -> (r: Result<Relay, RelayError>)
        requires
            old(self).wf(),
        ensures
            final(self).wf(),
            relay_outcome(old(self)@, final(self)@, read_json_result(text@), fresh_trace@, r),
    {
        match read_json(text) {
            Some(frame) => self.relay_frame(frame, fresh_trace),
            None => Err(RelayError::NotJson),
        }
    }

    /// Relays the frame at the head of the backlog, if a request may be
    /// added to those in flight. `None` where nothing is to be relayed now:
    /// the backlog is empty or `max_parallel` requests are in flight.
    pub fn next_relay(&mut self, fresh_trace: String) -> (r: Option<Result<Relay, RelayError>>)
        requires
            old(self).wf(),
        ensures
            final(self).wf(),
            r is None <==> (old(self)@.in_flight >= old(self)@.max_parallel || old(self)@.backlog.len() == 0),
            r is None ==> final(self)@ == old(self)@,
            match r {
                Some(res) => relay_outcome(
                    SessionView { backlog: old(self)@.backlog.drop_first(), ..old(self)@ },
                    final(self)@,
                    read_json_result(old(self)@.backlog[0]),
                    fresh_trace@,
                    res,
                ),
                None => true,
            },
    {
        if self.in_flight >= self.max_parallel || self.backlog.len() == 0 {
            return None;
        }
        let ghost before = self.backlog@;
        let text = self.backlog.pop_front().unwrap();
        proof {
            assert(self.backlog@.map_values(|t: String| t@) =~= before.map_values(|t: String| t@).drop_first());
        }
        Some(self.relay_text(text.as_str(), fresh_trace))
    }
}

impl GatewaySession {
    /// Relays frames from the head of the backlog for as long as fewer
    /// than `max_parallel` requests are in flight, taking a fresh trace id
    /// from `mint` for each. A refused frame is dropped, and the draining
    /// goes on. Afterwards either `max_parallel` requests are in flight or
    /// the backlog is empty; the count stays within `max_parallel` where it
    /// was within it and each relayed frame opens at most one request.
    pub fn drain<F: Fn() -> String>(&mut self, mint: &F) -> (r: Vec<Result<Relay, RelayError>>)
        requires
            old(self).wf(),
            call_requires(*mint, ()),
        ensures
            final(self).wf(),
            final(self)@.in_flight >= final(self)@.max_parallel || final(self)@.backlog.len() == 0,
            final(self)@.backlog == old(self)@.backlog.skip(r@.len() as int),
            final(self)@.max_parallel == old(self)@.max_parallel,
            final(self)@.max_backlog == old(self)@.max_backlog,
            final(self)@.domain == old(self)@.domain,
            final(self)@.address == old(self)@.address,
            final(self)@.shutdown_since == old(self)@.shutdown_since,
            (old(self)@.in_flight <= old(self)@.max_parallel && forall|i: int|
                0 <= i < r@.len() && (#[trigger] r@[i]) is Ok ==> count_opens(r@[i]->Ok_0.envelope.body@) <= 1)
                ==> final(self)@.in_flight <= final(self)@.max_parallel,
    {
        let mut out: Vec<Result<Relay, RelayError>> = Vec::new();
        let ghost s0 = self@;
        proof {
            assert(s0.backlog.skip(0) =~= s0.backlog);
        }
        while self.in_flight < self.max_parallel && self.backlog.len() > 0
            invariant
                self.wf(),
                call_requires(*mint, ()),
                s0 == old(self)@,
                out@.len() <= s0.backlog.len(),
                self@.backlog == s0.backlog.skip(out@.len() as int),
                self@.max_parallel == s0.max_parallel,
                self@.max_backlog == s0.max_backlog,
                self@.domain == s0.domain,
                self@.address == s0.address,
                self@.shutdown_since == s0.shutdown_since,
                (s0.in_flight <= s0.max_parallel && forall|i: int|
                    0 <= i < out@.len() && (#[trigger] out@[i]) is Ok ==> count_opens(out@[i]->Ok_0.envelope.body@) <= 1)
                    ==> self@.in_flight <= self@.max_parallel,
            decreases self@.backlog.len(),
        {
            let ghost pre = self@;
            let ghost before = out@;
            let trace = mint();
            match self.next_relay(trace) {
                Some(res) => {
                    out.push(res);
                    proof {
                        assert(s0.backlog.skip(out@.len() as int) =~= pre.backlog.drop_first());
                        assert forall|i: int| 0 <= i < before.len() implies out@[i] == before[i] by {}
                        if s0.in_flight <= s0.max_parallel && forall|i: int|
                            0 <= i < out@.len() && (#[trigger] out@[i]) is Ok ==> count_opens(out@[i]->Ok_0.envelope.body@) <= 1 {
                            assert(out@[before.len() as int] == res);
                            assert forall|i: int| 0 <= i < before.len() && (#[trigger] before[i]) is Ok
                                implies count_opens(before[i]->Ok_0.envelope.body@) <= 1 by {
                                assert(out@[i] == before[i]);
                            }
                        }
                    }
                },
                None => {},
            }
        }
        out
    }
}

/// A relayed envelope whose thread has no cached recipient goes into the
/// queue of the router of the local domain, addressed to the service;
/// one whose thread has a cached recipient goes straight to it.
pub proof fn lemma_routing(
    s: SessionView,
    t: SessionView,
    frame: Value,
    fresh: Seq<char>,
    r: Result<Relay, RelayError>,
)
    requires
        relay_outcome(s, t, Some(frame), fresh, r),
        r is Ok,
    ensures
        ({
            let thread = text_of(field_of(frame, "thread"@))->0;
            let rel = r->Ok_0;
            if s.cache.contains_key(thread) {
                rel.router is None && rel.envelope.to@ == s.cache[thread]
            } else {
                rel.router is Some && rel.router->0@ == router_address(s.domain)
            }
        }),
{
}

/// Relaying keeps the requests in flight within `max_parallel`, where
/// the frame opens at most one request: frames are relayed only while
/// fewer than `max_parallel` are in flight.
pub proof fn lemma_in_flight_bound(
    s: SessionView,
    t: SessionView,
    frame: Option<Value>,
    fresh: Seq<char>,
    r: Result<Relay, RelayError>,
)
    requires
        s.in_flight < s.max_parallel,
        relay_outcome(s, t, frame, fresh, r),
        r is Ok ==> count_opens(r->Ok_0.envelope.body@) <= 1,
    ensures
        t.in_flight <= t.max_parallel,
{
}

/// A disconnect leaves no cache entry for its thread, so relaying the same
/// disconnect again changes nothing: the entry stays absent and the
/// requests in flight stay as they were.
pub proof fn lemma_disconnect_idempotent(
    s: SessionView,
    t: SessionView,
    u: SessionView,
    frame: Value,
    fresh1: Seq<char>,
    fresh2: Seq<char>,
    r1: Result<Relay, RelayError>,
    r2: Result<Relay, RelayError>,
)
    requires
        relay_outcome(s, t, Some(frame), fresh1, r1),
        relay_outcome(t, u, Some(frame), fresh2, r2),
        r1 is Ok,
        forall|i: int| 0 <= i < r1->Ok_0.envelope.body@.len() ==> (#[trigger] r1->Ok_0.envelope.body@[i]).payload is Disconnect,
    ensures
        !t.cache.contains_key(text_of(field_of(frame, "thread"@))->0),
        u == t,
{
    let b = r1->Ok_0.envelope.body@;
    assert(b.len() > 0);
    assert(b[0].payload is Disconnect);
    lemma_no_opens(b);
    if r2 is Ok {
        let b2 = r2->Ok_0.envelope.body@;
        assert forall|i: int| 0 <= i < b2.len() implies (#[trigger] b2[i]).payload is Disconnect by {
            let vs = listed(field_of(frame, "osrf_msg"@));
            assert(relayed_as(b[i], vs[i]));
            assert(relayed_as(b2[i], vs[i]));
        }
        lemma_no_opens(b2);
        assert(b2[0].payload is Disconnect);
        assert(t.cache.remove(text_of(field_of(frame, "thread"@))->0) =~= t.cache);
    }
}

/// Messages that are all disconnects open nothing.
pub proof fn lemma_no_opens(ms: Seq<Message>)
    requires
        forall|i: int| 0 <= i < ms.len() ==> (#[trigger] ms[i]).payload is Disconnect,
    ensures
        count_opens(ms) == 0,
    decreases ms.len(),
{
    if ms.len() > 0 {
        assert(ms.last() == ms[ms.len() - 1]);
        assert forall|i: int| 0 <= i < ms.drop_last().len() implies (#[trigger] ms.drop_last()[i]).payload is Disconnect by {
            assert(ms.drop_last()[i] == ms[i]);
        }
        lemma_no_opens(ms.drop_last());
    }
}

/// One less, held at zero.
pub open spec fn dec(n: nat) -> nat {
    if n == 0 {
        0
    } else {
        (n - 1) as nat
    }
}

/// The count in flight and the cache after one reply message of `thread`
/// from `from`: an `Ok` status caches the sender; `Complete` closes one
/// request; an error status closes one and drops the thread's entry.
pub open spec fn reply_step(
    st: (nat, Map<Seq<char>, Seq<char>>),
    thread: Seq<char>,
    from: Seq<char>,
    m: Message,
) -> (nat, Map<Seq<char>, Seq<char>>) {
    match m.payload {
        Payload::Status(s) => {
            if s.code == StatusCode::Okay {
                (dec(st.0), st.1.insert(thread, from))
            } else if s.code == StatusCode::Complete {
                (dec(st.0), st.1)
            } else if code_number(s.code) >= 400 {
                (dec(st.0), st.1.remove(thread))
            } else {
                st
            }
        },
        _ => st,
    }
}

/// `reply_step` over the messages of `ms`, first to last.
pub open spec fn replies_settle(
    st: (nat, Map<Seq<char>, Seq<char>>),
    thread: Seq<char>,
    from: Seq<char>,
    ms: Seq<Message>,
) -> (nat, Map<Seq<char>, Seq<char>>)
    decreases ms.len(),
{
    if ms.len() == 0 {
        st
    } else {
        reply_step(replies_settle(st, thread, from, ms.drop_last()), thread, from, ms.last())
    }
}

/// A status of 400 or above.
pub open spec fn is_error_status(m: Message) -> bool {
    match m.payload {
        Payload::Status(s) => code_number(s.code) >= 400,
        _ => false,
    }
}

/// Some message of `ms` is an error status.
pub open spec fn any_error(ms: Seq<Message>) -> bool {
    exists|i: int| 0 <= i < ms.len() && is_error_status(#[trigger] ms[i])
}

/// `v` is the outbound frame for messages `body` of `thread`:
/// `{"oxrf_xid": xid, "thread": thread, "osrf_msg": [..], "transport_error": true}`,
/// the last field only where some message is an error status.
pub open spec fn reply_frame(v: Value, xid: Seq<char>, thread: String, body: Seq<Message>) -> bool {
    match v {
        Value::Object(f) => {
            &&& f@.len() == if any_error(body) { 4int } else { 3int }
            &&& f@[0].0@ == "oxrf_xid"@
            &&& text_of(Some(f@[0].1)) == Some(xid)
            &&& has_entry(f@, 1, "thread"@, Value::Str(thread))
            &&& f@[2].0@ == "osrf_msg"@
            &&& match f@[2].1 {
                Value::Array(a) => a@.len() == body.len() && forall|i: int|
                    0 <= i < body.len() ==> #[trigger] message_encoded(a@[i], body[i]),
                _ => false,
            }
            &&& any_error(body) ==> f@[3].0@ == "transport_error"@ && f@[3].1 == Value::Bool(true)
        },
        _ => false,
    }
}

/// The log trace id of an envelope, empty where it has none.
pub open spec fn xid_text(x: Option<String>) -> Seq<char> {
    match x {
        Some(s) => s@,
        None => Seq::empty(),
    }
}

impl GatewaySession {
    /// Takes in a reply envelope from the bus and builds the frame for the
    /// websocket client, settling the requests in flight and the thread
    /// cache by each status that the envelope carries.
    pub fn relay_reply(&mut self, tm: TransportMessage) -> (r: Value)
        requires
            old(self).wf(),
        ensures
            final(self).wf(),
            reply_frame(r, xid_text(tm.osrf_xid), tm.thread, tm.body@),
            ({
                let st = replies_settle(
                    (old(self)@.in_flight, old(self)@.cache),
                    tm.thread@,
                    tm.from@,
                    tm.body@,
                );
                final(self)@ == SessionView { in_flight: st.0, cache: st.1, ..old(self)@ }
            }),
    {
        let ghost s0 = self@;
        let ghost body0 = tm.body@;
        let mut failed = false;
        let mut i: usize = 0;
        while i < tm.body.len()
            invariant
                self.wf(),
                body0 == tm.body@,
                i <= tm.body.len(),
                ({
                    let st = replies_settle((s0.in_flight, s0.cache), tm.thread@, tm.from@, body0.subrange(0, i as int));
                    self@ == SessionView { in_flight: st.0, cache: st.1, ..s0 }
                }),
                failed == any_error(body0.subrange(0, i as int)),
            decreases tm.body.len() - i,
        {
            let ghost pre = body0.subrange(0, i as int);
            proof {
                assert(body0.subrange(0, i + 1).drop_last() =~= pre);
                assert(body0.subrange(0, i + 1).last() == body0[i as int]);
            }
            match &tm.body[i].payload {
                Payload::Status(st) => {
                    if st.code == StatusCode::Okay {
                        if self.in_flight > 0 {
                            self.in_flight = self.in_flight - 1;
                        }
                        self.cache.insert(tm.thread.clone(), tm.from.clone());
                    } else if st.code == StatusCode::Complete {
                        if self.in_flight > 0 {
                            self.in_flight = self.in_flight - 1;
                        }
                    } else if st.code.is_error() {
                        if self.in_flight > 0 {
                            self.in_flight = self.in_flight - 1;
                        }
                        self.cache.remove(&tm.thread);
                        failed = true;
                    }
                },
                _ => {},
            }
            proof {
                let next = body0.subrange(0, i + 1);
                if failed {
                    if is_error_status(body0[i as int]) {
                        assert(next[i as int] == body0[i as int]);
                    } else {
                        let w = choose|j: int| 0 <= j < pre.len() && is_error_status(#[trigger] pre[j]);
                        assert(next[w] == pre[w]);
                    }
                } else {
                    assert forall|j: int| 0 <= j < next.len() implies !is_error_status(#[trigger] next[j]) by {
                        if j < i {
                            assert(next[j] == pre[j]);
                        }
                    }
                }
            }
            i = i + 1;
        }
        proof {
            assert(body0.subrange(0, body0.len() as int) =~= body0);
        }
        let TransportMessage { to: _, from: _, thread, osrf_xid, body } = tm;
        let mut rest = body;
        let mut out: Vec<Value> = Vec::new();
        while rest.len() > 0
            invariant
                out.len() + rest.len() == body0.len(),
                rest@ == body0.subrange(out.len() as int, body0.len() as int),
                forall|j: int| 0 <= j < out.len() ==> #[trigger] message_encoded(out@[j], body0[j]),
            decreases rest.len(),
        {
            let ghost k = out.len() as int;
            let m = rest.remove(0);
            assert(m == body0[k]);
            let ghost before = out@;
            out.push(encode_message(m));
            proof {
                assert forall|j: int| 0 <= j < out.len() implies #[trigger] message_encoded(out@[j], body0[j]) by {
                    if j < k {
                        assert(out@[j] == before[j]);
                    }
                }
                assert(rest@ =~= body0.subrange(out.len() as int, body0.len() as int));
            }
        }
        let xid = match osrf_xid {
            Some(x) => x,
            None => String::new(),
        };
        let mut f: Vec<(String, Value)> = Vec::new();
        f.push(("oxrf_xid".to_owned(), Value::Str(xid)));
        f.push(("thread".to_owned(), Value::Str(thread)));
        f.push(("osrf_msg".to_owned(), Value::Array(out)));
        if failed {
            f.push(("transport_error".to_owned(), Value::Bool(true)));
        }
        Value::Object(f)
    }

    /// The text of the outbound websocket frame for a reply envelope,
    /// settling the session as `relay_reply` does.
    pub fn reply_text(&mut self, tm: TransportMessage) -> (r: String)
        requires
            old(self).wf(),
        ensures
            final(self).wf(),
            exists|v: Value| reply_frame(v, xid_text(tm.osrf_xid), tm.thread, tm.body@) && r@ == json_text(v),
            ({
                let st = replies_settle(
                    (old(self)@.in_flight, old(self)@.cache),
                    tm.thread@,
                    tm.from@,
                    tm.body@,
                );
                final(self)@ == SessionView { in_flight: st.0, cache: st.1, ..old(self)@ }
            }),
    {
        let ghost xid = xid_text(tm.osrf_xid);
        let ghost thread = tm.thread;
        let ghost body = tm.body@;
        let v = self.relay_reply(tm);
        let r = dump_json(&v);
        assert(reply_frame(v, xid, thread, body));
        r
    }
}

/// Replies never raise the count of requests in flight, so a session
/// within `max_parallel` stays within it when replies come in.
pub proof fn lemma_replies_lower_in_flight(
    st: (nat, Map<Seq<char>, Seq<char>>),
    thread: Seq<char>,
    from: Seq<char>,
    ms: Seq<Message>,
)
    ensures
        replies_settle(st, thread, from, ms).0 <= st.0,
    decreases ms.len(),
{
    if ms.len() > 0 {
        lemma_replies_lower_in_flight(st, thread, from, ms.drop_last());
    }
}

/// What a shutdown check decides.
#[derive(Debug, Clone, Copy, PartialEq, Eq, Structural)]
pub struct ShutdownCheck {
    /// The session is to end now.
    pub finished: bool,
    /// The session's own shutdown flag is to be raised, so that its
    /// reader threads stop.
    pub stop_session: bool,
}

/// Whether a session that has been shutting down since `since` is done at
/// time `now`: the wait is over, or no work is left.
pub open spec fn shutdown_done(s: SessionView, since: u64, now: u64) -> bool {
    now >= since + SHUTDOWN_MAX_WAIT || (s.in_flight == 0 && s.backlog.len() == 0)
}

impl GatewaySession {
    /// Checks the server's and the session's shutdown flags at time `now`
    /// (in seconds). The first check that sees a flag starts the shutdown
    /// timer; later checks end the session once no work is left or
    /// `SHUTDOWN_MAX_WAIT` seconds have passed.
    pub fn check_shutdown(&mut self, server_shutdown: bool, session_shutdown: bool, now: u64) -> (r: ShutdownCheck)
        requires
            old(self).wf(),
        ensures
            final(self).wf(),
            r.stop_session == (server_shutdown && !session_shutdown),
            !server_shutdown && !session_shutdown ==> !r.finished && final(self)@ == old(self)@,
            server_shutdown || session_shutdown ==> match old(self)@.shutdown_since {
                None => !r.finished && final(self)@ == (SessionView { shutdown_since: Some(now), ..old(self)@ }),
                Some(since) => final(self)@ == old(self)@ && r.finished == shutdown_done(old(self)@, since, now),
            },
    {
        let stop_session = server_shutdown && !session_shutdown;
        if !server_shutdown && !session_shutdown {
            return ShutdownCheck { finished: false, stop_session };
        }
        match self.shutdown_since {
            Some(since) => {
                let waited = now >= since && now - since >= SHUTDOWN_MAX_WAIT;
                let idle = self.in_flight == 0 && self.backlog.len() == 0;
                ShutdownCheck { finished: waited || idle, stop_session }
            },
            None => {
                self.shutdown_since = Some(now);
                ShutdownCheck { finished: false, stop_session }
            },
        }
    }
}

/// Once shutdown has begun, a session ends at the first check made
/// `SHUTDOWN_MAX_WAIT` seconds after the timer started, however many
/// requests are still in flight.
pub proof fn lemma_shutdown_bound(s: SessionView, since: u64, now: u64)
    requires
        now >= since + SHUTDOWN_MAX_WAIT,
    ensures
        shutdown_done(s, since, now),
{
}

} // verus!
