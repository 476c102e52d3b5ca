use osrf_gateway::supervisor::Supervisor;
use osrf_gateway::message::{Message, MethodCall, Payload, StatusCode, TransportMessage};
use osrf_gateway::registry::{decimal_string, log_params, MethodDef, ParamCount};
use osrf_gateway::summary::{SummaryListOptions, SummaryListType};
use osrf_gateway::auth_internal::{RsAuthInternalApplication, RsAuthInternalEnv};
use osrf_gateway::value::Value;
use osrf_gateway::worker::{Step, Worker, WorkerState, WorkerStateEvent, POLL_TIME};

fn worker() -> Worker {
    let methods = vec![
        MethodDef { name: "echo".to_string(), param_count: ParamCount::Any, atomic: false },
        MethodDef { name: "add".to_string(), param_count: ParamCount::Exact(2), atomic: false },
        MethodDef { name: "batch".to_string(), param_count: ParamCount::AtLeast(1), atomic: true },
    ];
    Worker::new("svc".to_string(), 3, "opensrf:client:w3".to_string(), methods, 5000, 5)
}

fn msg(trace: u64, payload: Payload) -> Message {
    Message { thread_trace: trace, payload, ingress: None }
}

fn request(trace: u64, method: &str, params: Vec<Value>) -> Message {
    msg(trace, Payload::Request(MethodCall { method: method.to_string(), params }))
}

fn status_of(e: &TransportMessage) -> (StatusCode, String) {
    match &e.body[0].payload {
        Payload::Status(s) => (s.code, s.text.clone()),
        _ => panic!("not a status"),
    }
}

fn replies(step: Step) -> Vec<TransportMessage> {
    match step {
        Step::Replies(r) => r,
        _ => panic!("expected replies"),
    }
}

#[test]
fn state_event_getters() {
    let w = worker();
    let e = w.state_event(WorkerState::Active);
    assert_eq!(e.worker_id(), 3);
    assert_eq!(e.state(), WorkerState::Active);
    assert_eq!(w.worker_id(), 3);
    let e2 = WorkerStateEvent { worker_id: 9, state: WorkerState::Done };
    assert_eq!(e2.state(), WorkerState::Done);
}

#[test]
fn connect_then_keepalive_timeout() {
    let mut w = worker();
    let listen = w.prepare_listen();
    assert_eq!(listen.address, "opensrf:service:svc");
    assert_eq!(listen.timeout, POLL_TIME);
    assert!(listen.clear_bus);

    let t = "T1".to_string();
    let from = "opensrf:client:dom:caller".to_string();
    let out = replies(w.handle_message(&t, &from, msg(1, Payload::Connect)));
    assert_eq!(out.len(), 1);
    assert_eq!(status_of(&out[0]), (StatusCode::Okay, "OK".to_string()));
    assert_eq!(out[0].to, "opensrf:client:dom:caller");
    assert!(w.connected());

    let listen = w.prepare_listen();
    assert_eq!(listen.address, "opensrf:client:w3");
    assert_eq!(listen.timeout, 5);
    assert!(!listen.clear_bus);

    let e = w.on_timeout().expect("timeout reply");
    assert_eq!(status_of(&e).0, StatusCode::Timeout);
    assert_eq!(e.to, "opensrf:client:dom:caller");
    assert_eq!(e.thread, "T1");
    assert!(!w.connected());
    assert_eq!(w.prepare_listen().address, "opensrf:service:svc");
}

#[test]
fn method_not_found() {
    let mut w = worker();
    let t = "T2".to_string();
    let from = "opensrf:client:dom:c".to_string();
    let out = replies(w.handle_message(&t, &from, request(4, "no.such", vec![])));
    assert_eq!(out.len(), 1);
    let (code, text) = status_of(&out[0]);
    assert_eq!(code, StatusCode::MethodNotFound);
    assert!(text.contains("no.such"));
    assert_eq!(out[0].body[0].thread_trace, 4);
    let end = w.end_cycle(true, false);
    assert!(end.session_ended);
    assert!(!end.done);
    assert_eq!(w.requests(), 1);
}

#[test]
fn param_count_mismatch() {
    let mut w = worker();
    let t = "T3".to_string();
    let from = "opensrf:client:dom:c".to_string();
    let out = replies(w.handle_message(&t, &from, request(1, "add", vec![Value::Null])));
    let (code, text) = status_of(&out[0]);
    assert_eq!(code, StatusCode::BadRequest);
    assert_eq!(text, "Bad Request: Invalid param count sent: method=add sent=1 needed=2");
}

#[test]
fn request_runs_then_completes_once() {
    let mut w = worker();
    let t = "T4".to_string();
    let from = "opensrf:client:dom:c".to_string();
    match w.handle_message(&t, &from, request(2, "echo", vec![Value::Number(true, 42, 0)])) {
        Step::Call(c) => {
            assert_eq!(c.method, "echo");
            assert_eq!(c.params.len(), 1);
        }
        _ => panic!("expected a call"),
    }
    let r = w.respond(Value::Number(true, 42, 0)).expect("result goes out");
    assert!(matches!(r.body[0].payload, Payload::Result(Value::Number(true, 42, 0))));
    let early = w.complete();
    assert_eq!(early.len(), 1);
    assert_eq!(status_of(&early[0]).0, StatusCode::Complete);
    assert!(w.complete().is_empty());
    assert!(w.finish_request(Ok(())).is_empty());
}

#[test]
fn atomic_method_gathers_results() {
    let mut w = worker();
    let t = "T5".to_string();
    let from = "opensrf:client:dom:c".to_string();
    assert!(matches!(w.handle_message(&t, &from, request(1, "batch", vec![Value::Null])), Step::Call(_)));
    assert!(w.respond(Value::Number(true, 1, 0)).is_none());
    assert!(w.respond(Value::Number(true, 2, 0)).is_none());
    let out = w.finish_request(Ok(()));
    assert_eq!(out.len(), 2);
    match &out[0].body[0].payload {
        Payload::Result(Value::Array(a)) => assert_eq!(a.len(), 2),
        _ => panic!("expected a batch"),
    }
    assert_eq!(status_of(&out[1]).0, StatusCode::Complete);
}

#[test]
fn handler_error_is_reported() {
    let mut w = worker();
    let t = "T6".to_string();
    let from = "opensrf:client:dom:c".to_string();
    replies(w.handle_message(&t, &from, msg(1, Payload::Connect)));
    assert!(matches!(w.handle_message(&t, &from, request(2, "echo", vec![])), Step::Call(_)));
    let out = w.finish_request(Err("boom".to_string()));
    assert_eq!(out.len(), 1);
    assert_eq!(status_of(&out[0]), (StatusCode::InternalServerError, "Internal Server Error: boom".to_string()));
    assert!(!w.connected());
}

#[test]
fn second_connect_is_refused() {
    let mut w = worker();
    let t = "T7".to_string();
    let from = "opensrf:client:dom:c".to_string();
    replies(w.handle_message(&t, &from, msg(1, Payload::Connect)));
    let out = replies(w.handle_message(&t, &from, msg(2, Payload::Connect)));
    assert_eq!(status_of(&out[0]).0, StatusCode::BadRequest);
    assert!(!w.connected());
}

#[test]
fn disconnect_ends_conversation() {
    let mut w = worker();
    let t = "T8".to_string();
    let from = "opensrf:client:dom:c".to_string();
    replies(w.handle_message(&t, &from, msg(1, Payload::Connect)));
    assert!(!w.end_cycle(true, false).session_ended);
    let out = replies(w.handle_message(&t, &from, msg(2, Payload::Disconnect)));
    assert!(out.is_empty());
    assert!(!w.connected());
    assert!(w.on_timeout().is_none());
}

#[test]
fn unexpected_type_is_bad_request() {
    let mut w = worker();
    let t = "T9".to_string();
    let from = "opensrf:client:dom:c".to_string();
    let out = replies(w.handle_message(&t, &from, msg(1, Payload::Result(Value::Null))));
    assert_eq!(status_of(&out[0]), (StatusCode::BadRequest, "Bad Request: Unexpected message type".to_string()));
}

#[test]
fn worker_retires_after_max_requests() {
    let mut w = Worker::new("svc".to_string(), 1, "a".to_string(), vec![], 2, 5);
    assert!(!w.end_cycle(false, false).done);
    assert_eq!(w.requests(), 0);
    assert!(!w.end_cycle(true, false).done);
    assert!(w.end_cycle(true, false).done);
    let mut w2 = worker();
    assert!(w2.end_cycle(false, true).done);
}

#[test]
fn param_counts() {
    assert!(ParamCount::Any.matches(9));
    assert!(ParamCount::Exact(2).matches(2));
    assert!(!ParamCount::Exact(2).matches(3));
    assert!(ParamCount::AtLeast(1).matches(4));
    assert!(!ParamCount::AtLeast(1).matches(0));
    assert!(ParamCount::Range(1, 3).matches(3));
    assert!(!ParamCount::Range(1, 3).matches(4));
    assert_eq!(ParamCount::Range(1, 3).describe(), "1-3");
    assert_eq!(ParamCount::AtLeast(2).describe(), "2+");
    assert_eq!(ParamCount::Any.describe(), "any");
}

#[test]
fn decimal_text() {
    assert_eq!(decimal_string(0), "0");
    assert_eq!(decimal_string(405), "405");
    assert_eq!(decimal_string(u64::MAX), u64::MAX.to_string());
}

#[test]
fn log_params_redacts_protected_methods() {
    let protect = vec!["open-ils.auth".to_string()];
    let params = vec![Value::Str("secret".to_string()), Value::Number(true, 5, 0)];
    assert_eq!(log_params(&"open-ils.auth.login".to_string(), &params, &protect), "**PARAMS REDACTED**");
    assert_eq!(log_params(&"open-ils.actor.get".to_string(), &params, &protect), r#""secret", 5"#);
    assert_eq!(log_params(&"x".to_string(), &vec![], &protect), "");
}

#[test]
fn summary_offsets_and_range() {
    let o = SummaryListOptions { list_type: SummaryListType::HoldItems, start_item: Some(2), end_item: Some(4) };
    assert_eq!(o.offset(), 1);
    assert_eq!(o.limit(), 3);
    assert_eq!(*o.list_type(), SummaryListType::HoldItems);
    let values: Vec<String> = (0..6).map(|i| i.to_string()).collect();
    assert_eq!(o.data_range(&values), vec!["1", "2", "3"]);
    let d = SummaryListOptions { list_type: SummaryListType::FineItems, start_item: None, end_item: Some(0) };
    assert_eq!(d.offset(), 0);
    assert_eq!(d.limit(), 10);
    assert_eq!(d.data_range(&values).len(), 6);
}

#[test]
fn auth_internal_app() {
    let _env = RsAuthInternalEnv::new();
    assert_eq!(RsAuthInternalApplication::new().name(), "open-ils.rs-auth-internal");
}

#[test]
fn other_thread_while_connected_is_refused() {
    let mut w = worker();
    let from = "opensrf:client:dom:c".to_string();
    let t1 = "T1".to_string();
    replies(w.handle_message(&t1, &from, msg(1, Payload::Connect)));
    let intruder = "opensrf:client:dom:d".to_string();
    let out = replies(w.handle_message(&"T2".to_string(), &intruder, request(5, "echo", vec![])));
    assert_eq!(out.len(), 1);
    assert_eq!(status_of(&out[0]).0, StatusCode::BadRequest);
    assert_eq!(out[0].thread, "T2");
    assert_eq!(out[0].to, "opensrf:client:dom:d");
    assert_eq!(out[0].from, "opensrf:client:w3");
    assert_eq!(out[0].body[0].thread_trace, 5);
    assert!(w.connected());
    let listen = w.prepare_listen();
    assert_eq!(listen.address, "opensrf:client:w3");
    let e = w.on_timeout().expect("held conversation times out");
    assert_eq!(e.thread, "T1");
    assert_eq!(e.to, "opensrf:client:dom:c");
}

#[test]
fn sender_must_be_a_client() {
    let mut w = worker();
    let t = "T1".to_string();
    assert!(matches!(w.handle_message(&t, &"opensrf:service:svc".to_string(), msg(1, Payload::Connect)), Step::Refused));
    assert!(matches!(w.handle_message(&t, &"nobody".to_string(), msg(1, Payload::Connect)), Step::Refused));
    assert!(!w.connected());
    assert!(!w.has_session());
}

#[test]
fn single_complete_outside_atomic_mode() {
    let mut w = worker();
    let t = "T4".to_string();
    let from = "opensrf:client:dom:c".to_string();
    assert!(matches!(w.handle_message(&t, &from, request(9, "echo", vec![Value::Number(true, 42, 0)])), Step::Call(_)));
    let r = w.respond(Value::Number(true, 42, 0)).expect("result goes out");
    assert_eq!(r.body[0].thread_trace, 9);
    let out = w.finish_request(Ok(()));
    assert_eq!(out.len(), 1);
    assert_eq!(status_of(&out[0]), (StatusCode::Complete, "Request Complete".to_string()));
    assert_eq!(out[0].body[0].thread_trace, 9);
}

#[test]
fn supervisor_keeps_pool_within_bounds() {
    let mut sup = Supervisor::new(1, 2);
    assert_eq!(sup.spawn(), Some(0));
    assert_eq!(sup.spawn(), None);
    assert!(!sup.on_event(WorkerStateEvent { worker_id: 0, state: WorkerState::Active }));
    assert_eq!(sup.idle_workers(), 0);
    assert_eq!(sup.spawn(), Some(1));
    assert!(!sup.on_event(WorkerStateEvent { worker_id: 1, state: WorkerState::Active }));
    assert_eq!(sup.spawn(), None);
    assert_eq!(sup.worker_count(), 2);
    assert!(sup.on_event(WorkerStateEvent { worker_id: 0, state: WorkerState::Done }));
    assert_eq!(sup.worker_count(), 1);
    assert!(!sup.on_event(WorkerStateEvent { worker_id: 7, state: WorkerState::Done }));
    sup.begin_shutdown();
    assert_eq!(sup.spawn(), None);
}
