use osrf_gateway::server::{admits, ServerSettings, SettingsError};
use osrf_gateway::gateway::{FrameOutcome, GatewaySession, RelayError, MAX_MESSAGE_SIZE};
use osrf_gateway::message::{Message, Payload, Status, StatusCode, TransportMessage};
use osrf_gateway::value::Value;

fn session(max_parallel: usize) -> GatewaySession {
    GatewaySession::new("local".to_string(), "opensrf:client:gw".to_string(), max_parallel)
}

fn connect_frame(thread: &str) -> String {
    format!(
        r#"{{"thread":"{thread}","service":"svc","osrf_msg":[{{"__c":"osrfMessage","__p":{{"threadTrace":1,"type":"CONNECT"}}}}]}}"#
    )
}

fn request_frame(thread: &str, with_service: bool) -> String {
    let service = if with_service { r#""service":"svc","# } else { "" };
    format!(
        r#"{{"thread":"{thread}",{service}"osrf_msg":[{{"__c":"osrfMessage","__p":{{"threadTrace":2,"type":"REQUEST","payload":{{"__c":"osrfMethod","__p":{{"method":"echo","params":[42]}}}}}}}}]}}"#
    )
}

fn disconnect_frame(thread: &str) -> String {
    format!(
        r#"{{"thread":"{thread}","osrf_msg":{{"__c":"osrfMessage","__p":{{"threadTrace":3,"type":"DISCONNECT"}}}}}}"#
    )
}

fn status(thread: &str, from: &str, trace: u64, code: StatusCode) -> TransportMessage {
    TransportMessage {
        to: "opensrf:client:gw".to_string(),
        from: from.to_string(),
        thread: thread.to_string(),
        osrf_xid: Some("x1".to_string()),
        body: vec![Message {
            thread_trace: trace,
            payload: Payload::Status(Status { code, text: "t".to_string(), kind: "osrfStatus".to_string() }),
            ingress: None,
        }],
    }
}

fn field<'a>(v: &'a Value, key: &str) -> Option<&'a Value> {
    match v {
        Value::Object(f) => f.iter().find(|(k, _)| k == key).map(|(_, x)| x),
        _ => None,
    }
}

#[test]
fn connect_request_disconnect_happy_path() {
    let mut s = session(8);
    let thread = "T1".to_string();

    let r = s.relay_text(&connect_frame("T1"), "fresh".to_string()).expect("connect relays");
    assert_eq!(r.envelope.to, "opensrf:service:svc");
    assert_eq!(r.router.as_deref(), Some("opensrf:router:local"));
    assert_eq!(r.envelope.from, "opensrf:client:gw");
    assert_eq!(r.envelope.osrf_xid.as_deref(), Some("fresh"));
    assert_eq!(r.envelope.body[0].ingress.as_deref(), Some("ws-translator-v3"));
    assert_eq!(s.in_flight(), 1);

    let out = s.relay_reply(status("T1", "opensrf:client:worker1", 1, StatusCode::Okay));
    assert!(field(&out, "transport_error").is_none());
    assert_eq!(s.in_flight(), 0);
    assert_eq!(s.cached_recipient(&thread).as_deref(), Some("opensrf:client:worker1"));

    let r = s.relay_text(&request_frame("T1", false), "fresh".to_string()).expect("request relays");
    assert_eq!(r.envelope.to, "opensrf:client:worker1");
    assert!(r.router.is_none());
    assert_eq!(s.in_flight(), 1);

    let mut reply = status("T1", "opensrf:client:worker1", 2, StatusCode::Complete);
    reply.body.insert(0, Message { thread_trace: 2, payload: Payload::Result(Value::Number(true, 42, 0)), ingress: None });
    let out = s.relay_reply(reply);
    match field(&out, "osrf_msg") {
        Some(Value::Array(a)) => assert_eq!(a.len(), 2),
        _ => panic!("no osrf_msg"),
    }
    assert!(matches!(field(&out, "oxrf_xid"), Some(Value::Str(x)) if x == "x1"));
    assert_eq!(s.in_flight(), 0);

    let r = s.relay_text(&disconnect_frame("T1"), "fresh".to_string()).expect("disconnect relays");
    assert_eq!(r.envelope.to, "opensrf:client:worker1");
    assert_eq!(s.in_flight(), 0);
    assert!(s.cached_recipient(&thread).is_none());
}

#[test]
fn oversized_frame_is_dropped() {
    let mut s = session(8);
    let big = "a".repeat(MAX_MESSAGE_SIZE + 1);
    assert_eq!(s.accept_frame(big), FrameOutcome::TooLarge);
    assert_eq!(s.backlog_len(), 0);
    assert_eq!(s.in_flight(), 0);
    let edge = "a".repeat(MAX_MESSAGE_SIZE);
    assert_eq!(s.accept_frame(edge), FrameOutcome::Queued);
}

#[test]
fn backlog_bound_holds() {
    let mut s = GatewaySession::with_backlog("local".to_string(), "gw".to_string(), 1, 2);
    assert_eq!(s.accept_frame("a".to_string()), FrameOutcome::Queued);
    assert_eq!(s.accept_frame("b".to_string()), FrameOutcome::Queued);
    assert_eq!(s.accept_frame("c".to_string()), FrameOutcome::BacklogFull);
    assert_eq!(s.backlog_len(), 2);
}

#[test]
fn backpressure_queues_third_request() {
    let mut s = session(2);
    for t in ["T1", "T2", "T3"] {
        assert_eq!(s.accept_frame(request_frame(t, true)), FrameOutcome::Queued);
    }
    let first = s.next_relay("x".to_string()).expect("relays").expect("ok");
    assert_eq!(first.envelope.thread, "T1");
    let second = s.next_relay("x".to_string()).expect("relays").expect("ok");
    assert_eq!(second.envelope.thread, "T2");
    assert!(s.next_relay("x".to_string()).is_none());
    assert_eq!(s.in_flight(), 2);
    assert_eq!(s.backlog_len(), 1);

    s.relay_reply(status("T1", "w", 2, StatusCode::Complete));
    assert_eq!(s.in_flight(), 1);
    let third = s.next_relay("x".to_string()).expect("relays").expect("ok");
    assert_eq!(third.envelope.thread, "T3");
    assert_eq!(s.in_flight(), 2);
    assert_eq!(s.backlog_len(), 0);
}

#[test]
fn error_status_flags_transport_error_and_evicts() {
    let mut s = session(8);
    let thread = "T9".to_string();
    s.relay_text(&connect_frame("T9"), "x".to_string()).expect("ok");
    s.relay_reply(status("T9", "w9", 1, StatusCode::Okay));
    s.relay_text(&request_frame("T9", false), "x".to_string()).expect("ok");
    let out = s.relay_reply(status("T9", "w9", 2, StatusCode::InternalServerError));
    assert!(matches!(field(&out, "transport_error"), Some(Value::Bool(true))));
    assert_eq!(s.in_flight(), 0);
    assert!(s.cached_recipient(&thread).is_none());
}

#[test]
fn repeated_disconnect_changes_nothing() {
    let mut s = session(8);
    let thread = "T1".to_string();
    s.relay_text(&connect_frame("T1"), "x".to_string()).expect("ok");
    s.relay_reply(status("T1", "w1", 1, StatusCode::Okay));
    s.relay_text(&disconnect_frame("T1"), "x".to_string()).expect("ok");
    assert!(s.cached_recipient(&thread).is_none());
    let before = s.in_flight();
    let again = s.relay_text(&disconnect_frame("T1"), "x".to_string());
    assert_eq!(again.err(), Some(RelayError::MissingService));
    assert_eq!(s.in_flight(), before);
    assert!(s.cached_recipient(&thread).is_none());
}

#[test]
fn relay_errors() {
    let mut s = session(8);
    assert_eq!(s.relay_text("not json", "x".to_string()).err(), Some(RelayError::NotJson));
    assert_eq!(s.relay_text(r#"{"service":"svc"}"#, "x".to_string()).err(), Some(RelayError::MissingThread));
    let long = "t".repeat(257);
    let frame = format!(r#"{{"thread":"{long}","service":"svc","osrf_msg":[]}}"#);
    assert_eq!(s.relay_text(&frame, "x".to_string()).err(), Some(RelayError::ThreadTooLong));
    assert_eq!(
        s.relay_text(r#"{"thread":"T","osrf_msg":[]}"#, "x".to_string()).err(),
        Some(RelayError::MissingService)
    );
    assert_eq!(
        s.relay_text(r#"{"thread":"T","service":"svc","osrf_msg":[]}"#, "x".to_string()).err(),
        Some(RelayError::EmptyBody)
    );
    assert_eq!(
        s.relay_text(r#"{"thread":"T","service":"svc","osrf_msg":[{"x":1}]}"#, "x".to_string()).err(),
        Some(RelayError::BadMessage)
    );
    let result = r#"{"thread":"T","service":"svc","osrf_msg":[{"__c":"osrfMessage","__p":{"threadTrace":1,"type":"RESULT","payload":{"__c":"osrfResult","__p":{"status":"OK","statusCode":200,"content":1}}}}]}"#;
    assert_eq!(s.relay_text(result, "x".to_string()).err(), Some(RelayError::UnexpectedType));
    assert_eq!(s.in_flight(), 0);
}

#[test]
fn log_xid_is_kept() {
    let mut s = session(8);
    let frame = r#"{"thread":"T","service":"svc","log_xid":"abc","osrf_msg":{"__c":"osrfMessage","__p":{"threadTrace":1,"type":"CONNECT"}}}"#;
    let r = s.relay_text(frame, "fresh".to_string()).expect("ok");
    assert_eq!(r.envelope.osrf_xid.as_deref(), Some("abc"));
}

#[test]
fn reply_text_is_json() {
    let mut s = session(8);
    let text = s.reply_text(status("T1", "w", 1, StatusCode::Complete));
    assert!(text.starts_with('{'));
    assert!(text.contains(r#""oxrf_xid":"x1""#));
    assert!(text.contains(r#""thread":"T1""#));
    assert!(!text.contains("transport_error"));
}

#[test]
fn graceful_shutdown_with_in_flight() {
    let mut s = session(1);
    s.relay_text(&request_frame("T1", true), "x".to_string()).expect("ok");
    assert_eq!(s.in_flight(), 1);
    let c = s.check_shutdown(true, false, 100);
    assert!(c.stop_session);
    assert!(!c.finished);
    let c = s.check_shutdown(true, true, 110);
    assert!(!c.stop_session);
    assert!(!c.finished);
    s.relay_reply(status("T1", "w", 2, StatusCode::Complete));
    let c = s.check_shutdown(true, true, 111);
    assert!(c.finished);
}

#[test]
fn shutdown_deadline_forces_exit() {
    let mut s = session(1);
    s.relay_text(&request_frame("T1", true), "x".to_string()).expect("ok");
    assert!(!s.check_shutdown(false, false, 5).finished);
    assert!(!s.check_shutdown(false, true, 10).finished);
    assert!(!s.check_shutdown(false, true, 39).finished);
    assert!(s.check_shutdown(false, true, 40).finished);
}


#[test]
fn in_flight_trace_of_a_conversation() {
    let mut s = session(8);
    let mut trace = vec![s.in_flight()];
    s.relay_text(&connect_frame("T1"), "x".to_string()).expect("ok");
    trace.push(s.in_flight());
    s.relay_text(&request_frame("T1", true), "x".to_string()).expect("ok");
    trace.push(s.in_flight());
    s.relay_reply(status("T1", "w1", 1, StatusCode::Okay));
    trace.push(s.in_flight());
    s.relay_reply(status("T1", "w1", 2, StatusCode::Complete));
    trace.push(s.in_flight());
    assert_eq!(trace, vec![0, 1, 2, 1, 0]);
    let r = s.relay_text(&disconnect_frame("T1"), "x".to_string()).expect("ok");
    assert_eq!(r.envelope.to, "w1");
    assert!(s.cached_recipient(&"T1".to_string()).is_none());
}

#[test]
fn server_admission_and_settings() {
    assert!(admits(254, 1, 256));
    assert!(!admits(255, 1, 256));
    let d = ServerSettings::from_texts(None, None, None, None, 8).expect("defaults");
    assert_eq!(d.address, "127.0.0.1");
    assert_eq!(d.port, 7682);
    assert_eq!(d.max_clients, 256);
    assert_eq!(d.max_parallel, 8);
    let c = ServerSettings::from_texts(Some("0.0.0.0".to_string()), Some("+80".to_string()), Some("4".to_string()), Some("2".to_string()), 8)
        .expect("valid");
    assert_eq!((c.address.as_str(), c.port, c.max_clients, c.max_parallel), ("0.0.0.0", 80, 4, 2));
    assert_eq!(ServerSettings::from_texts(None, Some("65536".to_string()), None, None, 8).err(), Some(SettingsError::BadPort));
    assert_eq!(ServerSettings::from_texts(None, Some("".to_string()), None, None, 8).err(), Some(SettingsError::BadPort));
    assert_eq!(ServerSettings::from_texts(None, None, Some("x1".to_string()), None, 8).err(), Some(SettingsError::BadMaxClients));
    assert_eq!(ServerSettings::from_texts(None, None, None, Some("-1".to_string()), 8).err(), Some(SettingsError::BadMaxParallel));
}

#[test]
fn drain_stops_at_max_parallel() {
    let mut s = session(2);
    for t in ["T1", "T2", "T3"] {
        s.accept_frame(request_frame(t, true));
    }
    s.accept_frame("not json".to_string());
    let out = s.drain(&|| "fresh".to_string());
    assert_eq!(out.len(), 2);
    assert_eq!(out[0].as_ref().expect("ok").service.as_deref(), Some("svc"));
    assert_eq!(s.in_flight(), 2);
    assert_eq!(s.backlog_len(), 2);
    s.relay_reply(status("T1", "w", 2, StatusCode::Complete));
    s.relay_reply(status("T2", "w", 2, StatusCode::Complete));
    let out = s.drain(&|| "fresh".to_string());
    assert_eq!(out.len(), 2);
    assert!(out[0].is_ok());
    assert_eq!(out[1].as_ref().err(), Some(&RelayError::NotJson));
    assert_eq!(s.in_flight(), 1);
    assert_eq!(s.backlog_len(), 0);
}

#[test]
fn empty_thread_is_refused() {
    let mut s = session(8);
    let frame = r#"{"thread":"","service":"svc","osrf_msg":{"__c":"osrfMessage","__p":{"threadTrace":1,"type":"CONNECT"}}}"#;
    assert_eq!(s.relay_text(frame, "x".to_string()).err(), Some(RelayError::MissingThread));
}

#[test]
fn overlong_digit_run_is_not_read() {
    let mut s = session(8);
    let frame = format!(r#"{{"thread":"T","service":"svc","n":0.{}1,"osrf_msg":[]}}"#, "0".repeat(32_769));
    assert_eq!(s.relay_text(&frame, "x".to_string()).err(), Some(RelayError::NotJson));
    let ok = format!(r#"{{"thread":"T","service":"svc","n":0.{}1,"osrf_msg":[]}}"#, "0".repeat(1000));
    assert_eq!(s.relay_text(&ok, "x".to_string()).err(), Some(RelayError::EmptyBody));
}
