//! The WebSocket bridge, the HTTP and lifespan endpoints, the scope and body
//! of a request, and the choice of host and port.

use urich::transport::{
    error_response, query_params, request_to_scope_and_body, settle_body, STATUS_WITHOUT_START,
};
use urich::{
    host_port_from_env_and_args, pump_continues, pump_inbound, pump_outbound,
    AsgiReceiveMessage, AsgiSendMessage, HttpReceiveDriver, HttpSendDriver,
    LifespanReceiveDriver, LifespanSendDriver, PumpStep, Scope, SocketItem, WsFrame,
};

fn args(list: &[&str]) -> Vec<String> {
    list.iter().map(|s| s.to_string()).collect()
}

fn forwarded(step: PumpStep) -> (Option<AsgiReceiveMessage>, bool) {
    match step {
        PumpStep::Forward { message, last } => (message, last),
        other => panic!("expected a forward, got {:?}", other),
    }
}

#[test]
fn inbound_text_binary_and_close_frames_are_forwarded() {
    let (message, last) = forwarded(pump_inbound(SocketItem::Frame(WsFrame::Text("hi".into()))));
    assert!(!last);
    match message {
        Some(AsgiReceiveMessage::WsReceive { text, bytes, close_code }) => {
            assert_eq!(text.as_deref(), Some("hi"));
            assert_eq!(bytes, None);
            assert_eq!(close_code, None);
        }
        other => panic!("unexpected {:?}", other),
    }
    let (message, last) = forwarded(pump_inbound(SocketItem::Frame(WsFrame::Binary(vec![1, 2]))));
    assert!(!last);
    match message {
        Some(AsgiReceiveMessage::WsReceive { text, bytes, close_code }) => {
            assert_eq!(text, None);
            assert_eq!(bytes, Some(vec![1, 2]));
            assert_eq!(close_code, None);
        }
        other => panic!("unexpected {:?}", other),
    }
    for code in [Some(1000u16), None] {
        let (message, last) = forwarded(pump_inbound(SocketItem::Frame(WsFrame::Close(code))));
        assert!(!last);
        match message {
            Some(AsgiReceiveMessage::WsReceive { text, bytes, close_code }) => {
                assert_eq!(text, None);
                assert_eq!(bytes, None);
                assert_eq!(close_code, code);
            }
            other => panic!("unexpected {:?}", other),
        }
    }
}

#[test]
fn inbound_control_frames_are_passed_over() {
    for frame in [WsFrame::Ping, WsFrame::Pong, WsFrame::Frame] {
        assert!(matches!(pump_inbound(SocketItem::Frame(frame)), PumpStep::Skip));
    }
}

#[test]
fn socket_closure_and_protocol_error_forward_the_end_marker_and_stop() {
    for item in [SocketItem::Closed, SocketItem::Failed("bad frame".into())] {
        let (message, last) = forwarded(pump_inbound(item));
        assert!(message.is_none());
        assert!(last);
    }
}

#[test]
fn outbound_messages_become_frames() {
    match pump_outbound(Some(AsgiSendMessage::WsSend {
        text: Some("t".into()),
        bytes: Some(vec![9]),
    })) {
        PumpStep::Write(WsFrame::Text(t)) => assert_eq!(t, "t"),
        other => panic!("unexpected {:?}", other),
    }
    match pump_outbound(Some(AsgiSendMessage::WsSend { text: None, bytes: Some(vec![9]) })) {
        PumpStep::Write(WsFrame::Binary(b)) => assert_eq!(b, vec![9]),
        other => panic!("unexpected {:?}", other),
    }
    assert!(matches!(
        pump_outbound(Some(AsgiSendMessage::WsSend { text: None, bytes: None })),
        PumpStep::Skip
    ));
    assert!(matches!(
        pump_outbound(Some(AsgiSendMessage::WsClose { code: Some(1001) })),
        PumpStep::Write(WsFrame::Close(Some(1001)))
    ));
    assert!(matches!(
        pump_outbound(Some(AsgiSendMessage::WsClose { code: None })),
        PumpStep::Write(WsFrame::Close(None))
    ));
    assert!(matches!(
        pump_outbound(Some(AsgiSendMessage::LifespanStartupComplete)),
        PumpStep::Skip
    ));
    assert!(matches!(
        pump_outbound(Some(AsgiSendMessage::HttpResponseBody { body: vec![], more: false })),
        PumpStep::Skip
    ));
    assert!(matches!(pump_outbound(None), PumpStep::Stop));
}

#[test]
fn pump_goes_on_only_after_a_delivery_that_is_not_the_last() {
    assert!(pump_continues(false, true));
    assert!(!pump_continues(true, true));
    assert!(!pump_continues(false, false));
    assert!(!pump_continues(true, false));
    assert_eq!(urich::bridge::CHANNEL_CAPACITY, 16);
}

#[test]
fn http_receive_endpoint_yields_the_body_once() {
    let mut recv = HttpReceiveDriver::new(b"body".to_vec());
    match recv.recv().unwrap() {
        Some(AsgiReceiveMessage::HttpRequest { body }) => assert_eq!(body, b"body"),
        other => panic!("unexpected {:?}", other),
    }
    assert!(recv.recv().unwrap().is_none());
    assert!(recv.recv().unwrap().is_none());
}

#[test]
fn http_send_endpoint_collects_the_response() {
    let mut send = HttpSendDriver::new();
    send.send(AsgiSendMessage::LifespanStartupComplete).unwrap();
    send.send(AsgiSendMessage::HttpResponseStart {
        status: 207,
        headers: vec![("A".into(), "b".into())],
    })
    .unwrap();
    send.send(AsgiSendMessage::HttpResponseBody { body: b"ab".to_vec(), more: true }).unwrap();
    send.send(AsgiSendMessage::HttpResponseBody { body: b"cd".to_vec(), more: false }).unwrap();
    send.send(AsgiSendMessage::WsClose { code: None }).unwrap();
    let (status, headers, body) = send.into_parts();
    assert_eq!(status, 207);
    assert_eq!(headers, vec![("A".to_string(), "b".to_string())]);
    assert_eq!(body, b"abcd");
}

#[test]
fn response_without_a_start_has_status_500() {
    let mut send = HttpSendDriver::new();
    send.send(AsgiSendMessage::HttpResponseBody { body: b"x".to_vec(), more: false }).unwrap();
    let (status, headers, body) = send.into_parts();
    assert_eq!(status, 500);
    assert_eq!(status, STATUS_WITHOUT_START);
    assert!(headers.is_empty());
    assert_eq!(body, b"x");
}

#[test]
fn lifespan_endpoints_yield_once_and_take_anything() {
    let mut recv = LifespanReceiveDriver { event: Some(AsgiReceiveMessage::LifespanShutdown) };
    assert!(matches!(recv.recv().unwrap(), Some(AsgiReceiveMessage::LifespanShutdown)));
    assert!(recv.recv().unwrap().is_none());
    let mut send = LifespanSendDriver;
    send.send(AsgiSendMessage::LifespanShutdownComplete).unwrap();
    send.send(AsgiSendMessage::WsClose { code: Some(1) }).unwrap();
}

#[test]
fn scope_keeps_method_and_headers_and_trims_the_path() {
    let (scope, body) = request_to_scope_and_body(
        "post".to_string(),
        "//orders/create/",
        Some("a=1"),
        vec![("Host".to_string(), "x".to_string())],
        "//orders/create/?a=1",
        b"raw".to_vec(),
    );
    match scope {
        Scope::Http(http) => {
            assert_eq!(http.method, "post");
            assert_eq!(http.path, "orders/create/");
            assert_eq!(http.query_string, "a=1");
            assert_eq!(http.headers, vec![("Host".to_string(), "x".to_string())]);
        }
        other => panic!("unexpected {:?}", other),
    }
    assert_eq!(body, b"raw");
}

#[test]
fn get_without_query_keeps_the_body_and_has_an_empty_query_string() {
    let (scope, body) =
        request_to_scope_and_body("GET".to_string(), "/a", None, vec![], "/a", b"b".to_vec());
    match scope {
        Scope::Http(http) => assert_eq!(http.query_string, ""),
        other => panic!("unexpected {:?}", other),
    }
    assert_eq!(body, b"b");
}

#[test]
fn get_with_query_gets_its_parameters_as_the_body() {
    let (_scope, body) = request_to_scope_and_body(
        "get".to_string(),
        "/orders",
        Some("id=7&name= x &id=8&=lost&flag"),
        vec![],
        "/orders?id=7&name= x &id=8&=lost&flag",
        b"ignored".to_vec(),
    );
    let value: serde_json::Value = serde_json::from_slice(&body).unwrap();
    let object = value.as_object().unwrap();
    assert_eq!(object.len(), 3);
    assert_eq!(object["id"], serde_json::Value::String("8".into()));
    assert_eq!(object["name"], serde_json::Value::String("x".into()));
    assert_eq!(object["flag"], serde_json::Value::String(String::new()));
    assert_eq!(body, br#"{"flag":"","id":"8","name":"x"}"#);
}

#[test]
fn only_the_text_between_the_first_two_question_marks_is_the_query() {
    let (_scope, body) = request_to_scope_and_body(
        "GET".to_string(),
        "/a",
        Some("x=1?y=2"),
        vec![],
        "/a?x=1?y=2",
        Vec::new(),
    );
    assert_eq!(body, br#"{"x":"1"}"#);
}

#[test]
fn query_parameters_are_split_trimmed_and_the_last_wins() {
    let mut params = query_params(" a = 1 &b=2=3&a=4&&c");
    let mut seen = Vec::new();
    while let Some((name, value)) = params.pop() {
        seen.push((name, value));
    }
    seen.sort();
    assert_eq!(
        seen,
        vec![
            ("a".to_string(), "4".to_string()),
            ("b".to_string(), "2=3".to_string()),
            ("c".to_string(), String::new()),
        ]
    );
    assert!(query_params("").pop().is_none());
}

#[test]
fn failed_encoding_leaves_the_body_empty() {
    assert_eq!(settle_body(b"raw".to_vec(), None), b"raw");
    assert_eq!(settle_body(b"raw".to_vec(), Some(Ok(b"{}".to_vec()))), b"{}");
    assert_eq!(settle_body(b"raw".to_vec(), Some(Err("no".to_string()))), b"");
}

#[test]
fn defaults_are_used_without_environment_and_flags() {
    let (host, port) = host_port_from_env_and_args(None, None, &args(&["prog"]), "127.0.0.1", 8000);
    assert_eq!(host, "127.0.0.1");
    assert_eq!(port, 8000);
    let (host, port) = host_port_from_env_and_args(None, None, &Vec::new(), "h", 1);
    assert_eq!((host.as_str(), port), ("h", 1));
}

#[test]
fn environment_replaces_the_defaults() {
    let (host, port) = host_port_from_env_and_args(
        Some("0.0.0.0".to_string()),
        Some("9000".to_string()),
        &args(&["prog"]),
        "127.0.0.1",
        8000,
    );
    assert_eq!(host, "0.0.0.0");
    assert_eq!(port, 9000);
    let (_, port) = host_port_from_env_and_args(
        None,
        Some("not a port".to_string()),
        &args(&["prog"]),
        "h",
        8000,
    );
    assert_eq!(port, 8000);
    let (_, port) =
        host_port_from_env_and_args(None, Some("70000".to_string()), &args(&["prog"]), "h", 8000);
    assert_eq!(port, 8000);
}

#[test]
fn flags_take_precedence_over_the_environment() {
    let (host, port) = host_port_from_env_and_args(
        Some("0.0.0.0".to_string()),
        Some("9000".to_string()),
        &args(&["prog", "--port", "8081", "extra", "--host", "example.org"]),
        "127.0.0.1",
        8000,
    );
    assert_eq!(host, "example.org");
    assert_eq!(port, 8081);
}

#[test]
fn flags_without_a_value_and_bad_ports_change_nothing() {
    let (host, port) = host_port_from_env_and_args(
        None,
        None,
        &args(&["--host", "first-is-the-program", "--port", "x", "--host"]),
        "d",
        5,
    );
    assert_eq!(host, "d");
    assert_eq!(port, 5);
    let (host, port) = host_port_from_env_and_args(
        None,
        None,
        &args(&["prog", "--host", "--port", "77", "--port"]),
        "d",
        5,
    );
    assert_eq!(host, "--port");
    assert_eq!(port, 5);
    let (host, port) = host_port_from_env_and_args(
        None,
        None,
        &args(&["prog", "--host", "a", "--host", "b", "--port", "1", "--port", "2"]),
        "d",
        5,
    );
    assert_eq!(host, "b");
    assert_eq!(port, 2);
}

#[test]
fn errors_are_reported_with_status_and_message_document() {
    let (status, body) = error_response(&urich::CoreError::NotFound("GET \"x\"".to_string()));
    assert_eq!(status, 404);
    assert_eq!(body, br#"{"error":"route not found: GET \"x\""}"#);
    let (status, body) = error_response(&urich::CoreError::Validation("bad".to_string()));
    assert_eq!(status, 400);
    assert_eq!(body, br#"{"error":"validation error: bad"}"#);
    let (status, body) = error_response(&urich::CoreError::Json("eof".to_string()));
    assert_eq!(status, 400);
    assert_eq!(body, br#"{"error":"invalid JSON: eof"}"#);
}
