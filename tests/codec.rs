use osrf_gateway::util::{json_bool, json_int};
use osrf_gateway::addr::{router_address_of, service_address_of, AddressKind, BusAddress};
use osrf_gateway::message::{
    decode_envelope, decode_message, encode_envelope, encode_message, Message, MethodCall, Payload, Status,
    StatusCode, TransportMessage,
};
use osrf_gateway::value::Value;

fn num(n: u64) -> Value {
    Value::Number(true, n, 0)
}

fn sample(payload: Payload, ingress: Option<&str>) -> Message {
    Message { thread_trace: 7, payload, ingress: ingress.map(|s| s.to_string()) }
}

fn round_trip(m: Message) -> Message {
    decode_message(encode_message(m)).expect("message decodes")
}

#[test]
fn connect_round_trip() {
    let back = round_trip(sample(Payload::Connect, None));
    assert_eq!(back.thread_trace, 7);
    assert!(matches!(back.payload, Payload::Connect));
    assert!(back.ingress.is_none());
}

#[test]
fn disconnect_round_trip() {
    let back = round_trip(sample(Payload::Disconnect, Some("ws-translator-v3")));
    assert!(matches!(back.payload, Payload::Disconnect));
    assert_eq!(back.ingress.as_deref(), Some("ws-translator-v3"));
}

#[test]
fn request_round_trip() {
    let call = MethodCall { method: "echo".to_string(), params: vec![num(42), Value::Str("x".to_string())] };
    let back = round_trip(sample(Payload::Request(call), None));
    match back.payload {
        Payload::Request(c) => {
            assert_eq!(c.method, "echo");
            assert_eq!(c.params.len(), 2);
            assert!(matches!(c.params[0], Value::Number(true, 42, 0)));
        }
        _ => panic!("not a request"),
    }
}

#[test]
fn result_round_trip() {
    let back = round_trip(sample(Payload::Result(num(42)), None));
    assert!(matches!(back.payload, Payload::Result(Value::Number(true, 42, 0))));
}

#[test]
fn status_round_trip() {
    let st = Status { code: StatusCode::MethodNotFound, text: "gone".to_string(), kind: "osrfStatus".to_string() };
    let back = round_trip(sample(Payload::Status(st), None));
    match back.payload {
        Payload::Status(s) => {
            assert_eq!(s.code, StatusCode::MethodNotFound);
            assert_eq!(s.code.number(), 404);
            assert_eq!(s.text, "gone");
            assert_eq!(s.kind, "osrfStatus");
        }
        _ => panic!("not a status"),
    }
}

#[test]
fn status_codes_numbers() {
    assert_eq!(StatusCode::Okay.number(), 200);
    assert_eq!(StatusCode::Continue.number(), 100);
    assert_eq!(StatusCode::Complete.number(), 205);
    assert_eq!(StatusCode::Timeout.number(), 408);
    assert_eq!(StatusCode::InternalServerError.number(), 500);
    assert_eq!(StatusCode::from_number(400), Some(StatusCode::BadRequest));
    assert_eq!(StatusCode::from_number(299), None);
    assert!(StatusCode::BadRequest.is_error());
    assert!(!StatusCode::Complete.is_error());
}

#[test]
fn envelope_round_trip() {
    let tm = TransportMessage {
        to: "opensrf:service:svc".to_string(),
        from: "opensrf:client:gw".to_string(),
        thread: "T1".to_string(),
        osrf_xid: Some("xid-1".to_string()),
        body: vec![sample(Payload::Connect, None), sample(Payload::Result(num(3)), None)],
    };
    let back = decode_envelope(encode_envelope(tm)).expect("envelope decodes");
    assert_eq!(back.to, "opensrf:service:svc");
    assert_eq!(back.from, "opensrf:client:gw");
    assert_eq!(back.thread, "T1");
    assert_eq!(back.osrf_xid.as_deref(), Some("xid-1"));
    assert_eq!(back.body.len(), 2);
    assert!(matches!(back.body[1].payload, Payload::Result(Value::Number(true, 3, 0))));
}

#[test]
fn envelope_without_body_is_refused() {
    let v = Value::Object(vec![
        ("to".to_string(), Value::Str("a".to_string())),
        ("from".to_string(), Value::Str("b".to_string())),
        ("thread".to_string(), Value::Str("c".to_string())),
    ]);
    assert!(decode_envelope(v).is_none());
}

#[test]
fn unknown_type_is_refused() {
    let v = Value::Object(vec![
        ("__c".to_string(), Value::Str("osrfMessage".to_string())),
        (
            "__p".to_string(),
            Value::Object(vec![
                ("threadTrace".to_string(), num(1)),
                ("type".to_string(), Value::Str("BOGUS".to_string())),
            ]),
        ),
    ]);
    assert!(decode_message(v).is_none());
}

#[test]
fn bus_address_round_trip() {
    let client = BusAddress {
        kind: AddressKind::Client,
        domain: "private.localhost".to_string(),
        service: None,
        instance: Some("gw:42:99".to_string()),
    };
    let text = client.as_text();
    assert_eq!(text, "opensrf:client:private.localhost:gw:42:99");
    let back = BusAddress::parse(&text).expect("parses");
    assert_eq!(back.kind, AddressKind::Client);
    assert_eq!(back.domain, "private.localhost");
    assert_eq!(back.instance.as_deref(), Some("gw:42:99"));

    let router = BusAddress::parse(&"opensrf:router:public.localhost".to_string()).expect("parses");
    assert_eq!(router.kind, AddressKind::Router);
    assert_eq!(router.domain, "public.localhost");
    assert_eq!(router.as_text(), "opensrf:router:public.localhost");

    let service = BusAddress::parse(&"opensrf:service:open-ils.actor".to_string()).expect("parses");
    assert_eq!(service.kind, AddressKind::Service);
    assert_eq!(service.service.as_deref(), Some("open-ils.actor"));
    assert_eq!(service.as_text(), "opensrf:service:open-ils.actor");

    assert!(BusAddress::parse(&"opensrf:client:nocolon".to_string()).is_none());
    assert!(BusAddress::parse(&"redis:router:x".to_string()).is_none());
    assert_eq!(router_address_of("d"), "opensrf:router:d");
    assert_eq!(service_address_of("svc"), "opensrf:service:svc");
}

#[test]
fn json_bool_readings() {
    assert!(!json_bool(&Value::Array(vec![Value::Str("true".to_string())])));
    assert!(json_bool(&Value::Str("trooo".to_string())));
    assert!(json_bool(&Value::Str("T".to_string())));
    assert!(!json_bool(&Value::Str("".to_string())));
    assert!(!json_bool(&Value::Number(true, 0, 0)));
    assert!(json_bool(&Value::Number(false, 5, -1)));
    assert!(!json_bool(&Value::Bool(false)));
    assert!(json_bool(&Value::Bool(true)));
    assert!(!json_bool(&Value::Null));
}

#[test]
fn json_int_readings() {
    assert_eq!(json_int(&Value::Array(vec![])).err().as_deref(), Some("Invalid int value: []"));
    assert_eq!(json_int(&Value::Str("-11".to_string())), Ok(-11));
    assert_eq!(json_int(&Value::Number(true, 12, 0)), Ok(12));
    assert_eq!(json_int(&Value::Number(false, 9223372036854775808, 0)), Ok(i64::MIN));
    assert!(json_int(&Value::Number(true, 12, 1)).is_err());
    assert_eq!(json_int(&Value::Str("+7".to_string())), Ok(7));
    assert!(json_int(&Value::Str("-+7".to_string())).is_err());
    assert!(json_int(&Value::Str("9223372036854775808".to_string())).is_err());
    assert_eq!(json_int(&Value::Str("-9223372036854775808".to_string())), Ok(i64::MIN));
}
