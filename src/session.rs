//! The worker's side of one conversation: its thread, its peer, the
//! trace of the message being answered, and whether that message has had
//! its final status.
use vstd::prelude::*;
use crate::value::Value;
use crate::message::{Message, Payload, Status, StatusCode, TransportMessage};

verus! {

/// A conversation as the contracts see it.
pub ghost struct ConversationView {
    pub thread: Seq<char>,
    pub sender: Seq<char>,
    pub address: Seq<char>,
    pub trace: u64,
    pub completed: bool,
    pub atomic: Option<Seq<Value>>,
}

/// A status that ends the answer to a message.
pub open spec fn is_terminal(c: StatusCode) -> bool {
    match c {
        StatusCode::Complete | StatusCode::BadRequest | StatusCode::InternalServerError
        | StatusCode::MethodNotFound | StatusCode::Timeout => true,
        _ => false,
    }
}

/// `e` goes from the worker to the peer of conversation `s`, in its
/// thread, with one message bearing the current trace.
pub open spec fn session_reply(e: TransportMessage, s: ConversationView) -> bool {
    &&& e.to@ == s.sender
    &&& e.from@ == s.address
    &&& e.thread@ == s.thread
    &&& e.osrf_xid is None
    &&& e.body@.len() == 1
    &&& e.body@[0].thread_trace == s.trace
    &&& e.body@[0].ingress is None
}

/// `e` answers conversation `s` with status `code` and text `text`.
pub open spec fn status_reply(e: TransportMessage, s: ConversationView, code: StatusCode, text: Seq<char>) -> bool {
    &&& session_reply(e, s)
    &&& match e.body@[0].payload {
        Payload::Status(st) => st.code == code && st.text@ == text && st.kind@ == "osrfStatus"@,
        _ => false,
    }
}

/// `e` answers conversation `s` with result `v`.
pub open spec fn result_reply(e: TransportMessage, s: ConversationView, v: Value) -> bool {
    session_reply(e, s) && e.body@[0].payload == Payload::Result(v)
}

/// `e` answers conversation `s` with the array of results `q`.
pub open spec fn batch_reply(e: TransportMessage, s: ConversationView, q: Seq<Value>) -> bool {
    &&& session_reply(e, s)
    &&& match e.body@[0].payload {
        Payload::Result(Value::Array(a)) => a@ == q,
        _ => false,
    }
}

/// `r` completes the answer in conversation `s`: the gathered results as
/// one array, where results are being gathered, then a `Complete` status.
pub open spec fn completion(r: Seq<TransportMessage>, s: ConversationView) -> bool {
    match s.atomic {
        Some(q) => r.len() == 2 && batch_reply(r[0], s, q)
            && status_reply(r[1], s, StatusCode::Complete, "Request Complete"@),
        None => r.len() == 1 && status_reply(r[0], s, StatusCode::Complete, "Request Complete"@),
    }
}

/// `e` carries a status that ends an answer.
pub open spec fn carries_terminal(e: TransportMessage) -> bool {
    exists|i: int| 0 <= i < e.body@.len() && match (#[trigger] e.body@[i]).payload {
        Payload::Status(st) => is_terminal(st.code),
        _ => false,
    }
}

/// How many envelopes of `es` carry a terminal status.
pub open spec fn count_terminal(es: Seq<TransportMessage>) -> nat
    decreases es.len(),
{
    if es.len() == 0 {
        0
    } else {
        count_terminal(es.drop_last()) + if carries_terminal(es.last()) { 1nat } else { 0nat }
    }
}

/// The worker's state for one conversation.
#[derive(Debug)]
pub struct ServerSession {
    thread: String,
    sender: String,
    address: String,
    last_thread_trace: u64,
    responded_complete: bool,
    atomic_resp_queue: Option<Vec<Value>>,
}

impl View for ServerSession {
    type V = ConversationView;

    closed spec fn view(&self) -> ConversationView {
        ConversationView {
            thread: self.thread@,
            sender: self.sender@,
            address: self.address@,
            trace: self.last_thread_trace,
            completed: self.responded_complete,
            atomic: match self.atomic_resp_queue {
                Some(q) => Some(q@),
                None => None,
            },
        }
    }
}

impl ServerSession {
    /// A conversation in `thread` with the peer at `sender`, answered from
    /// the worker's bus `address`.
    pub fn new(thread: String, sender: String, address: String) -> (r: ServerSession)
        ensures
            r@ == (ConversationView {
                thread: thread@,
                sender: sender@,
                address: address@,
                trace: 0,
                completed: false,
                atomic: None,
            }),
    {
        ServerSession {
            thread,
            sender,
            address,
            last_thread_trace: 0,
            responded_complete: false,
            atomic_resp_queue: None,
        }
    }

    /// The conversation's thread id.
    pub fn thread(&self) -> (r: &String)
        ensures
            r@ == self@.thread,
    {
        &self.thread
    }

    /// The bus address of the peer.
    pub fn sender(&self) -> (r: &String)
        ensures
            r@ == self@.sender,
    {
        &self.sender
    }

    /// The trace of the message being answered.
    pub fn last_thread_trace(&self) -> (r: u64)
        ensures
            r == self@.trace,
    {
        self.last_thread_trace
    }

    /// True once the message being answered has had its final status.
    pub fn responded_complete(&self) -> (r: bool)
        ensures
            r == self@.completed,
    {
        self.responded_complete
    }

    /// Starts answering the message with trace `trace`.
    pub fn begin_message(&mut self, trace: u64)
        ensures
            final(self)@ == (ConversationView { trace, completed: false, ..old(self)@ }),
    {
        self.last_thread_trace = trace;
        self.responded_complete = false;
    }

    /// From now on, results are gathered and sent as one array on completion.
    pub fn new_atomic_resp_queue(&mut self)
        ensures
            final(self)@ == (ConversationView { atomic: Some(Seq::empty()), ..old(self)@ }),
    {
        self.atomic_resp_queue = Some(Vec::new());
        proof {
            assert(self@.atomic->0 =~= Seq::<Value>::empty());
        }
    }

    fn reply(&self, payload: Payload) -> (r: TransportMessage)
        ensures
            session_reply(r, self@),
            r.body@[0].payload == payload,
    {
        let mut body: Vec<Message> = Vec::new();
        body.push(Message { thread_trace: self.last_thread_trace, payload, ingress: None });
        TransportMessage {
            to: self.sender.clone(),
            from: self.address.clone(),
            thread: self.thread.clone(),
            osrf_xid: None,
            body,
        }
    }

    /// A status reply in this conversation. A final status marks the
    /// message as answered.
    pub fn reply_status(&mut self, code: StatusCode, text: String) -> (r: TransportMessage)
        ensures
            status_reply(r, old(self)@, code, text@),
            final(self)@ == (ConversationView {
                completed: old(self)@.completed || is_terminal(code),
                ..old(self)@
            }),
    {
        let r = self.reply(Payload::Status(Status { code, text, kind: "osrfStatus".to_owned() }));
        if code == StatusCode::Complete || code == StatusCode::BadRequest
            || code == StatusCode::InternalServerError || code == StatusCode::MethodNotFound
            || code == StatusCode::Timeout {
            self.responded_complete = true;
        }
        r
    }

    /// Sends one result: in atomic mode it joins the gathered results and
    /// nothing goes out yet.
    pub fn respond(&mut self, value: Value) -> (r: Option<TransportMessage>)
        ensures
            match old(self)@.atomic {
                Some(q) => r is None && final(self)@ == (ConversationView { atomic: Some(q.push(value)), ..old(self)@ }),
                None => r is Some && result_reply(r->0, old(self)@, value) && final(self)@ == old(self)@,
            },
    {
        match self.atomic_resp_queue.take() {
            Some(q) => {
                let mut q = q;
                q.push(value);
                self.atomic_resp_queue = Some(q);
                None
            },
            None => Some(self.reply(Payload::Result(value))),
        }
    }

    /// Completes the answer: sends the gathered results, if any, as one
    /// array, then a `Complete` status.
    pub fn send_complete(&mut self) -> (r: Vec<TransportMessage>)
        ensures
            final(self)@ == (ConversationView { completed: true, atomic: None, ..old(self)@ }),
            completion(r@, old(self)@),
            count_terminal(r@) == 1,
    {
        let mut out: Vec<TransportMessage> = Vec::new();
        match self.atomic_resp_queue.take() {
            Some(q) => {
                out.push(self.reply(Payload::Result(Value::Array(q))));
            },
            None => {},
        }
        let done = self.reply_status(StatusCode::Complete, "Request Complete".to_owned());
        out.push(done);
        proof {
            let d = out@.last();
            assert(match (d.body@[0]).payload {
                Payload::Status(st) => is_terminal(st.code),
                _ => false,
            });
            assert(count_terminal(out@.drop_last()) == 0) by {
                if out@.len() == 2 {
                    assert(out@.drop_last().last() == out@[0]);
                    assert(count_terminal(out@.drop_last().drop_last()) == 0);
                    assert forall|i: int| 0 <= i < out@[0].body@.len() implies !(match (#[trigger] out@[0].body@[i]).payload {
                        Payload::Status(st) => is_terminal(st.code),
                        _ => false,
                    }) by {
                        assert(i == 0);
                    }
                }
            }
        }
        out
    }
}

} // verus!
