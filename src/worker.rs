//! A service worker: it owns one bus address, answers the messages of one
//! conversation at a time, and reports its state to its supervisor.
//!
//! The worker decides; the caller receives from the bus, runs method
//! handlers, and sends what the worker hands back.
use vstd::prelude::*;
use crate::message::{Message, MethodCall, Payload, StatusCode, TransportMessage};
use crate::registry::{MethodDef, count_fits, decimal, decimal_string, arity_text, find_method};
use crate::session::{ServerSession, ConversationView, status_reply, count_terminal, carries_terminal, is_terminal, completion};
use crate::addr::{AddressKind, BusAddress, parse_address_text};
use crate::addr::{service_address, service_address_of};

verus! {

/// Seconds that a worker waits on its service address before it looks at
/// the shutdown flag again.
pub const POLL_TIME: u32 = 5;

/// Requests a worker answers before it retires, unless configured.
pub const DEFAULT_MAX_REQUESTS: u32 = 5000;

/// Seconds a connected worker waits for the next message, unless configured.
pub const DEFAULT_KEEPALIVE: u32 = 5;

/// Each worker is in one of these states.
#[derive(Debug, Clone, Copy, PartialEq, Eq, Structural)]
pub enum WorkerState {
    Idle,
    Active,
    Done,
}

/// A change of a worker's state, as reported to the supervisor.
#[derive(Debug, Clone, Copy, PartialEq, Eq, Structural)]
pub struct WorkerStateEvent {
    pub worker_id: u64,
    pub state: WorkerState,
}

impl WorkerStateEvent {
    /// The worker that changed state.
    pub fn worker_id(&self) -> (r: u64)
        ensures
            r == self.worker_id,
    {
        self.worker_id
    }

    /// Its new state.
    pub fn state(&self) -> (r: WorkerState)
        ensures
            r == self.state,
    {
        self.state
    }
}

/// Where and how long the worker waits for its next envelope.
#[derive(Debug)]
pub struct Listen {
    /// The bus address to receive on.
    pub address: String,
    /// Seconds to wait.
    pub timeout: u32,
    /// Drop whatever waits on the worker's own address first.
    pub clear_bus: bool,
}

/// What answering one message comes to.
#[derive(Debug)]
pub enum Step {
    /// Envelopes to send; the message is dealt with.
    Replies(Vec<TransportMessage>),
    /// The method handler is to run on this call; then `finish_request`.
    Call(MethodCall),
    /// The message came from no client address: it is not answered.
    Refused,
}

/// What ends one turn of the receive loop.
#[derive(Debug, Clone, Copy, PartialEq, Eq, Structural)]
pub struct CycleEnd {
    /// A conversation ended: the application's end-of-session hook runs
    /// and the supervisor hears that the worker is idle.
    pub session_ended: bool,
    /// The worker stops listening.
    pub done: bool,
}

/// A worker as the contracts see it.
pub ghost struct WorkerView {
    pub service: Seq<char>,
    pub worker_id: u64,
    pub address: Seq<char>,
    pub methods: Seq<MethodDef>,
    pub max_requests: u32,
    pub keepalive: u32,
    pub connected: bool,
    pub session: Option<ConversationView>,
    pub requests: u32,
}

/// A service worker.
pub struct Worker {
    service: String,
    worker_id: u64,
    address: String,
    methods: Vec<MethodDef>,
    max_requests: u32,
    keepalive: u32,
    connected: bool,
    session: Option<ServerSession>,
    requests: u32,
}

impl View for Worker {
    type V = WorkerView;

    closed spec fn view(&self) -> WorkerView {
        WorkerView {
            service: self.service@,
            worker_id: self.worker_id,
            address: self.address@,
            methods: self.methods@,
            max_requests: self.max_requests,
            keepalive: self.keepalive,
            connected: self.connected,
            session: match self.session {
                Some(s) => Some(s@),
                None => None,
            },
            requests: self.requests,
        }
    }
}

/// The conversation that a message of `thread` from `from` is answered
/// in: the current one if it is of that thread, else a new one.
pub open spec fn conversation_for(w: WorkerView, thread: Seq<char>, from: Seq<char>) -> ConversationView {
    match w.session {
        Some(s) => if s.thread == thread {
            s
        } else {
            ConversationView { thread, sender: from, address: w.address, trace: 0, completed: false, atomic: None }
        },
        None => ConversationView { thread, sender: from, address: w.address, trace: 0, completed: false, atomic: None },
    }
}

/// Method `i` is the first of `methods` named `name`.
pub open spec fn first_named(methods: Seq<MethodDef>, name: Seq<char>, i: int) -> bool {
    &&& 0 <= i < methods.len()
    &&& methods[i].name@ == name
    &&& forall|j: int| 0 <= j < i ==> (#[trigger] methods[j]).name@ != name
}

/// `s` is the text of a client bus address.
pub open spec fn is_client_address(s: Seq<char>) -> bool {
    match parse_address_text(s) {
        Some(a) => a.kind == AddressKind::Client,
        None => false,
    }
}

/// The text of a param-count refusal.
pub open spec fn param_count_text(method: Seq<char>, sent: nat, m: MethodDef) -> Seq<char> {
    "Bad Request: Invalid param count sent: method="@ + method + " sent="@ + decimal(sent) + " needed="@
        + arity_text(m.param_count)
}

impl Worker {
    /// Connected workers hold a conversation, and a conversation is
    /// answered from the worker's own address.
    pub open spec fn wf(&self) -> bool {
        &&& self@.connected ==> self@.session is Some
        &&& self@.session is Some ==> self@.session->0.address == self@.address
    }

    /// A worker for `service`, answering from bus address `address` with
    /// the methods of `methods`.
    pub fn new(
        service: String,
        worker_id: u64,
        address: String,
        methods: Vec<MethodDef>,
        max_requests: u32,
        keepalive: u32,
    ) -> (r: Worker)
        ensures
            r.wf(),
            r@ == (WorkerView {
                service: service@,
                worker_id,
                address: address@,
                methods: methods@,
                max_requests,
                keepalive,
                connected: false,
                session: None,
                requests: 0,
            }),
    {
        Worker {
            service,
            worker_id,
            address,
            methods,
            max_requests,
            keepalive,
            connected: false,
            session: None,
            requests: 0,
        }
    }

    /// The worker's id.
    pub fn worker_id(&self) -> (r: u64)
        ensures
            r == self@.worker_id,
    {
        self.worker_id
    }

    /// True within a stateful conversation.
    pub fn connected(&self) -> (r: bool)
        ensures
            r == self@.connected,
    {
        self.connected
    }

    /// Leaves a stateful conversation, as after a failure to handle an
    /// envelope; the conversation itself is kept until the next wait.
    pub fn abandon(&mut self)
        requires
            old(self).wf(),
        ensures
            final(self).wf(),
            final(self)@ == (WorkerView { connected: false, ..old(self)@ }),
    {
        self.connected = false;
    }

    /// True while a conversation is current.
    pub fn has_session(&self) -> (r: bool)
        ensures
            r == self@.session is Some,
    {
        self.session.is_some()
    }

    /// Requests answered so far.
    pub fn requests(&self) -> (r: u32)
        ensures
            r == self@.requests,
    {
        self.requests
    }

    /// The report of a change to `state`.
    pub fn state_event(&self, state: WorkerState) -> (r: WorkerStateEvent)
        ensures
            r == (WorkerStateEvent { worker_id: self@.worker_id, state }),
    {
        WorkerStateEvent { worker_id: self.worker_id, state }
    }

    /// Where to wait next. Within a conversation: on the worker's own
    /// address for `keepalive` seconds. Otherwise the worker drops any
    /// conversation and waits on the service address for `POLL_TIME`
    /// seconds, its own queue cleared first.
    pub fn prepare_listen(&mut self) -> (r: Listen)
        requires
            old(self).wf(),
        ensures
            final(self).wf(),
            old(self)@.connected ==> final(self)@ == old(self)@ && r.address@ == old(self)@.address
                && r.timeout == old(self)@.keepalive && !r.clear_bus,
            !old(self)@.connected ==> final(self)@ == (WorkerView { session: None, ..old(self)@ })
                && r.address@ == service_address(old(self)@.service) && r.timeout == POLL_TIME
                && r.clear_bus,
    {
        if self.connected {
            Listen { address: self.address.clone(), timeout: self.keepalive, clear_bus: false }
        } else {
            self.session = None;
            Listen { address: service_address_of(self.service.as_str()), timeout: POLL_TIME, clear_bus: true }
        }
    }

    /// Nothing came within the wait. A connected worker's peer has let
    /// the keepalive run out: the conversation ends with a `Timeout`
    /// status to the peer. Otherwise nothing happens.
    pub fn on_timeout(&mut self) -> (r: Option<TransportMessage>)
        requires
            old(self).wf(),
        ensures
            final(self).wf(),
            old(self)@.connected ==> {
                let s = old(self)@.session->0;
                &&& r is Some
                &&& status_reply(r->0, s, StatusCode::Timeout, "Timeout"@)
                &&& final(self)@ == (WorkerView {
                    connected: false,
                    session: Some(ConversationView { completed: true, ..s }),
                    ..old(self)@
                })
            },
            !old(self)@.connected ==> r is None && final(self)@ == old(self)@,
    {
        if !self.connected {
            return None;
        }
        self.connected = false;
        match self.session.take() {
            Some(s) => {
                let mut s = s;
                let e = s.reply_status(StatusCode::Timeout, "Timeout".to_owned());
                self.session = Some(s);
                Some(e)
            },
            None => None,
        }
    }
}

impl Worker {
    /// Makes the conversation of `thread` with `from` current and starts
    /// answering a message with trace `trace` in it.
    fn enter_conversation(&mut self, thread: &String, from: &String, trace: u64)
        requires
            old(self).wf(),
        ensures
            final(self).wf(),
            final(self)@ == (WorkerView {
                session: Some(ConversationView {
                    trace,
                    completed: false,
                    ..conversation_for(old(self)@, thread@, from@)
                }),
                ..old(self)@
            }),
    {
        let fresh = match &self.session {
            Some(s) => *s.thread() != *thread,
            None => true,
        };
        let mut s = if fresh {
            ServerSession::new(thread.clone(), from.clone(), self.address.clone())
        } else {
            self.session.take().unwrap()
        };
        s.begin_message(trace);
        self.session = Some(s);
    }

    /// Replies in the current conversation with status `code`.
    fn reply_with_status(&mut self, code: StatusCode, text: String) -> (r: TransportMessage)
        requires
            old(self).session is Some,
        ensures
            status_reply(r, old(self)@.session->0, code, text@),
            final(self)@ == (WorkerView {
                session: Some(ConversationView {
                    completed: old(self)@.session->0.completed || is_terminal(code),
                    ..old(self)@.session->0
                }),
                ..old(self)@
            }),
    {
        let mut s = self.session.take().unwrap();
        let e = s.reply_status(code, text);
        self.session = Some(s);
        e
    }

    /// Answers one message of `thread` from the peer at `from`.
    ///
    /// `Connect` opens a stateful conversation (`Ok`), or is refused
    /// within one; `Disconnect` ends the conversation without a reply; a
    /// `Request` names a method, which must exist and accept the number of
    /// parameters sent; anything else is refused, as is any message of
    /// another thread while connected. Every refusal ends the stateful
    /// conversation.
    pub fn handle_message(&mut self, thread: &String, from: &String, msg: Message) -> (r: Step)
        requires
            old(self).wf(),
        ensures
            final(self).wf(),
            ({
                let c = ConversationView {
                    trace: msg.thread_trace,
                    completed: false,
                    ..conversation_for(old(self)@, thread@, from@)
                };
                let w = old(self)@;
                if !is_client_address(from@) {
                    r is Refused && final(self)@ == w
                } else if w.connected && w.session->0.thread != thread@ {
                    &&& r is Replies && r->Replies_0@.len() == 1
                    &&& status_reply(r->Replies_0@[0], c, StatusCode::BadRequest,
                        "Bad Request: Worker is connected to another thread"@)
                    &&& final(self)@ == w
                } else {
                match msg.payload {
                    Payload::Disconnect => r is Replies && r->Replies_0@.len() == 0
                        && final(self)@ == (WorkerView { connected: false, session: None, ..w }),
                    Payload::Connect => r is Replies && r->Replies_0@.len() == 1 && if w.connected {
                        &&& status_reply(r->Replies_0@[0], c, StatusCode::BadRequest,
                            "Bad Request: Worker is already connected"@)
                        &&& final(self)@ == (WorkerView {
                            connected: false,
                            session: Some(ConversationView { completed: true, ..c }),
                            ..w
                        })
                    } else {
                        &&& status_reply(r->Replies_0@[0], c, StatusCode::Okay, "OK"@)
                        &&& final(self)@ == (WorkerView { connected: true, session: Some(c), ..w })
                    },
                    Payload::Request(call) => if forall|j: int| 0 <= j < w.methods.len()
                        ==> (#[trigger] w.methods[j]).name@ != call.method@ {
                        &&& r is Replies && r->Replies_0@.len() == 1
                        &&& status_reply(r->Replies_0@[0], c, StatusCode::MethodNotFound,
                            "Method not found: "@ + call.method@)
                        &&& final(self)@ == (WorkerView {
                            session: Some(ConversationView { completed: true, ..c }),
                            ..w
                        })
                    } else {
                        exists|i: int| #[trigger] first_named(w.methods, call.method@, i) && {
                            let m = w.methods[i];
                            let c2 = if m.atomic {
                                ConversationView { atomic: Some(Seq::empty()), ..c }
                            } else {
                                c
                            };
                            if count_fits(m.param_count, call.params@.len()) {
                                &&& r == Step::Call(call)
                                &&& final(self)@ == (WorkerView { session: Some(c2), ..w })
                            } else {
                                &&& r is Replies && r->Replies_0@.len() == 1
                                &&& status_reply(r->Replies_0@[0], c2, StatusCode::BadRequest,
                                    param_count_text(call.method@, call.params@.len(), m))
                                &&& final(self)@ == (WorkerView {
                                    connected: false,
                                    session: Some(ConversationView { completed: true, ..c2 }),
                                    ..w
                                })
                            }
                        }
                    },
                    _ => {
                        &&& r is Replies && r->Replies_0@.len() == 1
                        &&& status_reply(r->Replies_0@[0], c, StatusCode::BadRequest,
                            "Bad Request: Unexpected message type"@)
                        &&& final(self)@ == (WorkerView {
                            connected: false,
                            session: Some(ConversationView { completed: true, ..c }),
                            ..w
                        })
                    },
                }
                }
            }),
            ({
                let c = ConversationView {
                    trace: msg.thread_trace,
                    completed: false,
                    ..conversation_for(old(self)@, thread@, from@)
                };
                let w = old(self)@;
                if w.connected && w.session->0.thread != thread@ {
                    r is Replies ==> count_terminal(r->Replies_0@) == 1
                } else {
                    match r {
                        Step::Replies(out) => match final(self)@.session {
                            Some(a) => answers_once(c, a, out@),
                            None => count_terminal(out@) == 0,
                        },
                        Step::Call(_) => final(self)@.session is Some && !final(self)@.session->0.completed,
                        Step::Refused => true,
                    }
                }
            }),
    {
        let client = match BusAddress::parse(from) {
            Some(a) => a.kind == AddressKind::Client,
            None => false,
        };
        if !client {
            return Step::Refused;
        }
        let other_thread = self.connected && match &self.session {
            Some(s) => *s.thread() != *thread,
            None => false,
        };
        let mut out: Vec<TransportMessage> = Vec::new();
        if other_thread {
            let mut intruder = ServerSession::new(thread.clone(), from.clone(), self.address.clone());
            intruder.begin_message(msg.thread_trace);
            let ghost c = intruder@;
            let e = intruder.reply_status(
                StatusCode::BadRequest,
                "Bad Request: Worker is connected to another thread".to_owned(),
            );
            proof {
                lemma_one_status(e, c, StatusCode::BadRequest, "Bad Request: Worker is connected to another thread"@);
            }
            out.push(e);
            proof {
                assert(out@ =~= seq![e]);
            }
            return Step::Replies(out);
        }
        self.enter_conversation(thread, from, msg.thread_trace);
        match msg.payload {
            Payload::Disconnect => {
                self.connected = false;
                self.session = None;
                proof {
                    assert(count_terminal(out@) == 0);
                }
                Step::Replies(out)
            },
            Payload::Connect => {
                if self.connected {
                    self.connected = false;
                    let e = self.reply_with_status(
                        StatusCode::BadRequest,
                        "Bad Request: Worker is already connected".to_owned(),
                    );
                    proof {
                        lemma_one_status(e, self@.session->0, StatusCode::BadRequest, "Bad Request: Worker is already connected"@);
                    }
                    out.push(e);
                    proof {
                        assert(out@ =~= seq![e]);
                    }
                } else {
                    self.connected = true;
                    let ghost c = self@.session->0;
                    let e = self.reply_with_status(StatusCode::Okay, "OK".to_owned());
                    proof {
                        lemma_one_status(e, c, StatusCode::Okay, "OK"@);
                    }
                    out.push(e);
                    proof {
                        assert(out@ =~= seq![e]);
                    }
                }
                Step::Replies(out)
            },
            Payload::Request(call) => {
                let idx = match find_method(&self.methods, &call.method) {
                    Some(i) => i,
                    None => {
                        let text = "Method not found: ".to_owned().concat(call.method.as_str());
                        let ghost c = self@.session->0;
                        let ghost t = text@;
                        let e = self.reply_with_status(StatusCode::MethodNotFound, text);
                        proof {
                            lemma_one_status(e, c, StatusCode::MethodNotFound, t);
                        }
                        out.push(e);
                        proof {
                            assert(out@ =~= seq![e]);
                        }
                        return Step::Replies(out);
                    },
                };
                let atomic = self.methods[idx].atomic;
                let pcount = self.methods[idx].param_count;
                proof {
                    assert(first_named(self@.methods, call.method@, idx as int));
                }
                if atomic {
                    let mut s = self.session.take().unwrap();
                    s.new_atomic_resp_queue();
                    self.session = Some(s);
                }
                let sent = call.params.len();
                if !pcount.matches(sent) {
                    self.connected = false;
                    let text = "Bad Request: Invalid param count sent: method=".to_owned()
                        .concat(call.method.as_str())
                        .concat(" sent=")
                        .concat(decimal_string(sent as u64).as_str())
                        .concat(" needed=")
                        .concat(pcount.describe().as_str());
                    let ghost c = self@.session->0;
                    let ghost t = text@;
                    let e = self.reply_with_status(StatusCode::BadRequest, text);
                    proof {
                        lemma_one_status(e, c, StatusCode::BadRequest, t);
                    }
                    out.push(e);
                    proof {
                        assert(out@ =~= seq![e]);
                    }
                    return Step::Replies(out);
                }
                Step::Call(call)
            },
            _ => {
                self.connected = false;
                let ghost c = self@.session->0;
                let e = self.reply_with_status(
                    StatusCode::BadRequest,
                    "Bad Request: Unexpected message type".to_owned(),
                );
                proof {
                    lemma_one_status(e, c, StatusCode::BadRequest, "Bad Request: Unexpected message type"@);
                }
                out.push(e);
                proof {
                    assert(out@ =~= seq![e]);
                }
                Step::Replies(out)
            },
        }
    }
}

/// From conversation state `b` to `a`, the envelopes `out` carry at most
/// one final status, and only for a message not yet answered, which it
/// marks answered. The trace and thread stay as they are.
pub open spec fn answers_once(b: ConversationView, a: ConversationView, out: Seq<TransportMessage>) -> bool {
    &&& a.trace == b.trace
    &&& a.thread == b.thread
    &&& b.completed ==> a.completed
    &&& count_terminal(out) <= 1
    &&& count_terminal(out) == 1 ==> !b.completed && a.completed
}

/// Terminal statuses of two runs of envelopes add up.
pub proof fn lemma_count_terminal_concat(x: Seq<TransportMessage>, y: Seq<TransportMessage>)
    ensures
        count_terminal(x + y) == count_terminal(x) + count_terminal(y),
    decreases y.len(),
{
    if y.len() == 0 {
        assert(x + y =~= x);
    } else {
        lemma_count_terminal_concat(x, y.drop_last());
        assert((x + y).drop_last() =~= x + y.drop_last());
        assert((x + y).last() == y.last());
    }
}

/// Whatever two steps do in one conversation, one message gets at most
/// one final status: `Complete`, `BadRequest`, `InternalServerError`,
/// `MethodNotFound` or `Timeout`.
pub proof fn lemma_single_completion(
    s0: ConversationView,
    s1: ConversationView,
    s2: ConversationView,
    out1: Seq<TransportMessage>,
    out2: Seq<TransportMessage>,
)
    requires
        answers_once(s0, s1, out1),
        answers_once(s1, s2, out2),
    ensures
        answers_once(s0, s2, out1 + out2),
{
    lemma_count_terminal_concat(out1, out2);
}

/// A message carrying no status carries no final status.
proof fn lemma_no_terminal(out: Seq<TransportMessage>)
    requires
        forall|i: int| 0 <= i < out.len() ==> !carries_terminal(#[trigger] out[i]),
    ensures
        count_terminal(out) == 0,
    decreases out.len(),
{
    if out.len() > 0 {
        assert(out.last() == out[out.len() - 1]);
        assert forall|i: int| 0 <= i < out.drop_last().len() implies !carries_terminal(#[trigger] out.drop_last()[i]) by {
            assert(out.drop_last()[i] == out[i]);
        }
        lemma_no_terminal(out.drop_last());
    }
}

/// One status envelope carries a final status exactly where its code is one.
proof fn lemma_one_status(e: TransportMessage, s: ConversationView, code: StatusCode, text: Seq<char>)
    requires
        status_reply(e, s, code, text),
    ensures
        count_terminal(seq![e]) == if is_terminal(code) { 1nat } else { 0nat },
{
    let out = seq![e];
    assert(out.drop_last().len() == 0);
    assert(count_terminal(out.drop_last()) == 0);
    assert(out.last() == e);
    if is_terminal(code) {
        assert(match (e.body@[0]).payload {
            Payload::Status(st) => is_terminal(st.code),
            _ => false,
        });
        assert(carries_terminal(e));
    } else {
        assert forall|i: int| 0 <= i < e.body@.len() implies !(match (#[trigger] e.body@[i]).payload {
            Payload::Status(st) => is_terminal(st.code),
            _ => false,
        }) by {
            assert(i == 0);
        }
        assert(!carries_terminal(e));
    }
}

impl Worker {
    /// The handler has run: on success the answer is completed, unless the
    /// handler completed it; on failure the peer gets an
    /// `InternalServerError` status, unless the answer was complete, and
    /// the stateful conversation ends.
    pub fn finish_request(&mut self, outcome: Result<(), String>) -> (r: Vec<TransportMessage>)
        requires
            old(self).wf(),
            old(self)@.session is Some,
        ensures
            final(self).wf(),
            final(self)@.session is Some,
            answers_once(old(self)@.session->0, final(self)@.session->0, r@),
            final(self)@.session->0.completed,
            final(self)@ == (WorkerView {
                connected: old(self)@.connected && outcome is Ok,
                session: final(self)@.session,
                ..old(self)@
            }),
            old(self)@.session->0.completed ==> r@.len() == 0 && final(self)@.session == old(self)@.session,
            !old(self)@.session->0.completed ==> match outcome {
                Ok(_) => completion(r@, old(self)@.session->0) && final(self)@.session == Some(
                    ConversationView { completed: true, atomic: None, ..old(self)@.session->0 },
                ),
                Err(e) => r@.len() == 1 && status_reply(
                    r@[0],
                    old(self)@.session->0,
                    StatusCode::InternalServerError,
                    "Internal Server Error: "@ + e@,
                ) && final(self)@.session == Some(ConversationView { completed: true, ..old(self)@.session->0 }),
            },
    {
        let mut s = self.session.take().unwrap();
        let mut out: Vec<TransportMessage> = Vec::new();
        let done = s.responded_complete();
        match outcome {
            Ok(_) => {
                if !done {
                    out = s.send_complete();
                }
            },
            Err(e) => {
                self.connected = false;
                if !done {
                    let text = "Internal Server Error: ".to_owned().concat(e.as_str());
                    let x = s.reply_status(StatusCode::InternalServerError, text);
                    proof {
                        lemma_one_status(x, old(self)@.session->0, StatusCode::InternalServerError, "Internal Server Error: "@ + e@);
                    }
                    out.push(x);
                    proof {
                        assert(out@ =~= seq![x]);
                    }
                }
            },
        }
        self.session = Some(s);
        proof {
            if done {
                assert(out@.len() == 0);
                assert(count_terminal(out@) == 0);
            }
        }
        out
    }

    /// Sends one result of the running handler (gathered instead in
    /// atomic mode).
    pub fn respond(&mut self, value: crate::value::Value) -> (r: Option<TransportMessage>)
        requires
            old(self).wf(),
            old(self)@.session is Some,
        ensures
            final(self).wf(),
            final(self)@ == (WorkerView { session: final(self)@.session, ..old(self)@ }),
            final(self)@.session is Some,
            match old(self)@.session->0.atomic {
                Some(q) => r is None && final(self)@.session->0 == (ConversationView {
                    atomic: Some(q.push(value)),
                    ..old(self)@.session->0
                }),
                None => r is Some && crate::session::result_reply(r->0, old(self)@.session->0, value)
                    && final(self)@.session == old(self)@.session,
            },
    {
        let mut s = self.session.take().unwrap();
        let r = s.respond(value);
        self.session = Some(s);
        r
    }

    /// Completes the answer early, from within the handler; a second call
    /// sends nothing.
    pub fn complete(&mut self) -> (r: Vec<TransportMessage>)
        requires
            old(self).wf(),
            old(self)@.session is Some,
        ensures
            final(self).wf(),
            final(self)@ == (WorkerView { session: final(self)@.session, ..old(self)@ }),
            final(self)@.session is Some,
            final(self)@.session->0.completed,
            answers_once(old(self)@.session->0, final(self)@.session->0, r@),
            old(self)@.session->0.completed ==> r@.len() == 0 && final(self)@.session == old(self)@.session,
            !old(self)@.session->0.completed ==> completion(r@, old(self)@.session->0)
                && final(self)@.session == Some(
                ConversationView { completed: true, atomic: None, ..old(self)@.session->0 },
            ),
    {
        let mut s = self.session.take().unwrap();
        let mut out: Vec<TransportMessage> = Vec::new();
        if !s.responded_complete() {
            out = s.send_complete();
        }
        self.session = Some(s);
        proof {
            if old(self)@.session->0.completed {
                assert(count_terminal(out@) == 0);
            }
        }
        out
    }

    /// Ends one turn of the receive loop. Within a stateful conversation
    /// the loop goes on and nothing is counted. Otherwise a turn that did
    /// work ended a conversation and counts as one request; the worker is
    /// done once `stopping` is set or `max_requests` requests are answered.
    pub fn end_cycle(&mut self, work_occurred: bool, stopping: bool) -> (r: CycleEnd)
        requires
            old(self).wf(),
        ensures
            final(self).wf(),
            old(self)@.connected ==> r == (CycleEnd { session_ended: false, done: false })
                && final(self)@ == old(self)@,
            !old(self)@.connected ==> {
                let n = if work_occurred && old(self)@.requests < u32::MAX {
                    (old(self)@.requests + 1) as u32
                } else {
                    old(self)@.requests
                };
                &&& final(self)@ == (WorkerView { requests: n, ..old(self)@ })
                &&& r.session_ended == work_occurred
                &&& r.done == (stopping || n >= old(self)@.max_requests)
            },
    {
        if self.connected {
            return CycleEnd { session_ended: false, done: false };
        }
        if work_occurred && self.requests < u32::MAX {
            self.requests = self.requests + 1;
        }
        CycleEnd { session_ended: work_occurred, done: stopping || self.requests >= self.max_requests }
    }
}

} // verus!
