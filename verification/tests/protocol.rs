//! The protocol core, driven event by event.

use urich::{
    App, AsgiReceiveMessage, AsgiSendMessage, CallAction, CallEvent, CallStage, CoreError,
    HttpScope, LifespanScope, RequestContext, Response, RouteId, Scope, UrichAsgi, WsScope,
};

type Callback = Box<dyn Fn(RouteId, &[u8], &RequestContext) -> Result<Response, CoreError>>;

fn front() -> UrichAsgi {
    UrichAsgi::new("Orders".to_string(), "0.1.0".to_string())
}

fn http(method: &str, path: &str) -> Scope {
    Scope::Http(HttpScope {
        method: method.to_string(),
        path: path.to_string(),
        headers: vec![("Accept".to_string(), "*/*".to_string())],
        query_string: String::new(),
    })
}

fn body_of(bytes: &[u8]) -> CallEvent {
    CallEvent::Received(Ok(Some(AsgiReceiveMessage::HttpRequest { body: bytes.to_vec() })))
}

/// Runs one call to its end against scripted endpoints; returns what was
/// sent and the result.
fn run_call(
    app: &App<Callback>,
    scope: Scope,
    incoming: Option<AsgiReceiveMessage>,
) -> (Vec<AsgiSendMessage>, Result<(), CoreError>, usize) {
    let asgi = front();
    let mut inbox = incoming;
    let mut received = 0;
    let mut sent = Vec::new();
    let (mut stage, mut action) = asgi.call(scope);
    loop {
        let event = match action {
            CallAction::Receive => {
                received += 1;
                CallEvent::Received(Ok(inbox.take()))
            }
            CallAction::Send(message) => {
                sent.push(message);
                CallEvent::Sent(Ok(()))
            }
            CallAction::Invoke { handler_id, payload, request } => {
                let cb = app.get_callback().unwrap();
                CallEvent::Invoked(cb(handler_id, &payload, &request))
            }
            CallAction::Finish(result) => {
                assert!(matches!(stage, CallStage::Finished));
                return (sent, result, received);
            }
        };
        let next = asgi.resume(app, stage, event, &urich::validate_json);
        stage = next.0;
        action = next.1;
    }
}

fn assert_response(sent: &[AsgiSendMessage], status: u16, content_type: &str, body: &[u8]) {
    assert_eq!(sent.len(), 2);
    match &sent[0] {
        AsgiSendMessage::HttpResponseStart { status: s, headers } => {
            assert_eq!(*s, status);
            assert_eq!(
                headers,
                &vec![("Content-Type".to_string(), content_type.to_string())]
            );
        }
        other => panic!("expected the response start, got {:?}", other),
    }
    match &sent[1] {
        AsgiSendMessage::HttpResponseBody { body: b, more } => {
            assert_eq!(b, body);
            assert!(!*more);
        }
        other => panic!("expected the response body, got {:?}", other),
    }
}

#[test]
fn lifespan_startup_receives_once_and_acknowledges_once() {
    let app: App<Callback> = App::new();
    let (sent, result, received) = run_call(
        &app,
        Scope::Lifespan(LifespanScope::Startup),
        Some(AsgiReceiveMessage::LifespanStartup),
    );
    result.unwrap();
    assert_eq!(received, 1);
    assert_eq!(sent.len(), 1);
    assert!(matches!(sent[0], AsgiSendMessage::LifespanStartupComplete));
}

#[test]
fn lifespan_shutdown_receives_once_and_acknowledges_once() {
    let app: App<Callback> = App::new();
    let (sent, result, received) = run_call(&app, Scope::Lifespan(LifespanScope::Shutdown), None);
    result.unwrap();
    assert_eq!(received, 1);
    assert_eq!(sent.len(), 1);
    assert!(matches!(sent[0], AsgiSendMessage::LifespanShutdownComplete));
}

#[test]
fn websocket_is_closed_with_the_unsupported_code() {
    let app: App<Callback> = App::new();
    let scope = Scope::WebSocket(WsScope { path: "/ws".to_string(), headers: vec![] });
    let (sent, result, received) = run_call(&app, scope, None);
    result.unwrap();
    assert_eq!(received, 0);
    assert_eq!(sent.len(), 1);
    assert!(matches!(sent[0], AsgiSendMessage::WsClose { code: Some(1008) }));
}

#[test]
fn http_request_is_answered_with_start_then_body() {
    let mut app: App<Callback> = App::new();
    let id = app.register_route("POST", "orders", None, None).unwrap();
    app.set_callback(Box::new(move |rid: RouteId, payload: &[u8], ctx: &RequestContext| {
        assert_eq!(rid, id);
        assert_eq!(payload, b"{\"n\":1}");
        assert_eq!(ctx.method, "POST");
        assert_eq!(ctx.path, "/orders/");
        assert_eq!(ctx.headers, vec![("Accept".to_string(), "*/*".to_string())]);
        assert_eq!(ctx.body, b"{\"n\":1}");
        Ok(Response { status_code: 201, body: b"{\"ok\":true}".to_vec(), content_type: None })
    }));
    let (sent, result, received) = run_call(
        &app,
        http("POST", "/orders/"),
        Some(AsgiReceiveMessage::HttpRequest { body: b"{\"n\":1}".to_vec() }),
    );
    result.unwrap();
    assert_eq!(received, 1);
    assert_response(&sent, 201, "application/json", b"{\"ok\":true}");
}

#[test]
fn answer_with_its_own_content_type_keeps_it() {
    let mut app: App<Callback> = App::new();
    app.register_route("GET", "page", None, None).unwrap();
    app.set_callback(Box::new(|_r: RouteId, _p: &[u8], _c: &RequestContext| {
        Ok(Response {
            status_code: 200,
            body: b"<p>hi</p>".to_vec(),
            content_type: Some("text/html".to_string()),
        })
    }));
    let (sent, result, _) = run_call(
        &app,
        http("GET", "page"),
        Some(AsgiReceiveMessage::HttpRequest { body: Vec::new() }),
    );
    result.unwrap();
    assert_response(&sent, 200, "text/html", b"<p>hi</p>");
}

#[test]
fn specification_document_of_the_registered_routes_is_served() {
    let mut app: App<Callback> = App::new();
    app.register_route("POST", "orders", None, Some("orders")).unwrap();
    let expected: &[u8] = br#"{"info":{"title":"Orders","version":"0.1.0"},"openapi":"3.0.0","paths":{"/orders":{"post":{"tags":["orders"]}}}}"#;
    for path in ["openapi.json", "/openapi.json", "//openapi.json"] {
        let (sent, result, received) = run_call(
            &app,
            http("GET", path),
            Some(AsgiReceiveMessage::HttpRequest { body: Vec::new() }),
        );
        result.unwrap();
        assert_eq!(received, 1);
        assert_response(&sent, 200, "application/json", expected);
    }
}

#[test]
fn specification_document_of_an_empty_registry_is_served() {
    let app: App<Callback> = App::new();
    let (sent, result, _) = run_call(
        &app,
        http("GET", "/openapi.json"),
        Some(AsgiReceiveMessage::HttpRequest { body: b"ignored".to_vec() }),
    );
    result.unwrap();
    assert_response(
        &sent,
        200,
        "application/json",
        br#"{"info":{"title":"Orders","version":"0.1.0"},"openapi":"3.0.0","paths":{}}"#,
    );
}

#[test]
fn rendered_specification_is_the_text_of_the_document() {
    let mut app: App<Callback> = App::new();
    let schema: serde_json::Value = serde_json::from_slice(br#"{"type":"object"}"#).unwrap();
    app.add_command("orders", "create", Some(schema)).unwrap();
    app.register_route("GET", "/health/", None, None).unwrap();
    app.register_route("get", "health", None, Some("ops")).unwrap();
    let asgi = front();
    let rendered = asgi.render_spec(&app);
    assert_eq!(rendered, serde_json::to_vec(&app.openapi_spec("Orders", "0.1.0")).unwrap());
    let read: serde_json::Value = serde_json::from_slice(&rendered).unwrap();
    let expected: serde_json::Value = serde_json::from_str(
        r#"{
            "openapi": "3.0.0",
            "info": { "title": "Orders", "version": "0.1.0" },
            "paths": {
                "/orders/commands/create": {
                    "post": {
                        "tags": ["orders"],
                        "requestBody": {
                            "content": {
                                "application/json": { "schema": { "type": "object" } }
                            }
                        }
                    }
                },
                "/health": { "get": { "tags": ["ops"] } }
            }
        }"#,
    )
    .unwrap();
    assert_eq!(read, expected);
}

#[test]
fn documentation_page_is_served_without_the_registry() {
    let app: App<Callback> = App::new();
    let (sent, result, _) = run_call(
        &app,
        http("GET", "/docs"),
        Some(AsgiReceiveMessage::HttpRequest { body: Vec::new() }),
    );
    result.unwrap();
    assert_eq!(sent.len(), 2);
    match &sent[1] {
        AsgiSendMessage::HttpResponseBody { body, more } => {
            let page = String::from_utf8(body.clone()).unwrap();
            assert!(page.starts_with("<!DOCTYPE html>"));
            assert!(page.contains("url: '/openapi.json'"));
            assert!(page.ends_with("</html>"));
            assert_eq!(page, urich::protocol::SWAGGER_UI_HTML);
            assert!(!*more);
        }
        other => panic!("expected the page, got {:?}", other),
    }
    assert_response(&sent, 200, "text/html", urich::protocol::SWAGGER_UI_HTML.as_bytes());
}

#[test]
fn unknown_route_ends_the_call_with_not_found_and_sends_nothing() {
    let app: App<Callback> = App::new();
    let (sent, result, _) = run_call(
        &app,
        http("GET", "nowhere"),
        Some(AsgiReceiveMessage::HttpRequest { body: Vec::new() }),
    );
    assert!(sent.is_empty());
    let err = result.unwrap_err();
    assert_eq!(err.status_code(), 404);
    assert_eq!(err.message(), "route not found: GET nowhere");
}

#[test]
fn dispatch_error_goes_upward_unchanged() {
    let mut app: App<Callback> = App::new();
    app.register_route("GET", "a", None, None).unwrap();
    app.set_callback(Box::new(|_r: RouteId, _p: &[u8], _c: &RequestContext| {
        Err(CoreError::Validation("bad input".to_string()))
    }));
    let (sent, result, _) = run_call(
        &app,
        http("GET", "a"),
        Some(AsgiReceiveMessage::HttpRequest { body: Vec::new() }),
    );
    assert!(sent.is_empty());
    let err = result.unwrap_err();
    assert_eq!(err.status_code(), 400);
    assert_eq!(err.message(), "validation error: bad input");
}

#[test]
fn http_call_without_a_request_message_is_refused() {
    let app: App<Callback> = App::new();
    for incoming in [None, Some(AsgiReceiveMessage::LifespanStartup)] {
        let (sent, result, received) = run_call(&app, http("GET", "a"), incoming);
        assert_eq!(received, 1);
        assert!(sent.is_empty());
        match result.unwrap_err() {
            CoreError::Validation(text) => assert_eq!(text, "expected http.request"),
            other => panic!("expected Validation, got {:?}", other),
        }
    }
}

#[test]
fn http_call_without_a_callback_is_refused() {
    let mut app: App<Callback> = App::new();
    app.register_route("GET", "a", None, None).unwrap();
    let (sent, result, _) = run_call(
        &app,
        http("GET", "a"),
        Some(AsgiReceiveMessage::HttpRequest { body: Vec::new() }),
    );
    assert!(sent.is_empty());
    match result.unwrap_err() {
        CoreError::Validation(text) => assert_eq!(text, "no callback set"),
        other => panic!("expected Validation, got {:?}", other),
    }
}

#[test]
fn endpoint_errors_end_the_call() {
    let app: App<Callback> = App::new();
    let asgi = front();
    let (stage, _) = asgi.call(Scope::Lifespan(LifespanScope::Startup));
    let (stage, action) = asgi.resume(
        &app,
        stage,
        CallEvent::Received(Err(CoreError::Validation("recv".to_string()))), &urich::validate_json
    );
    assert!(matches!(stage, CallStage::Finished));
    assert!(matches!(action, CallAction::Finish(Err(CoreError::Validation(_)))));

    let (stage, _) = asgi.call(Scope::Lifespan(LifespanScope::Shutdown));
    let (stage, action) = asgi.resume(&app, stage, CallEvent::Received(Ok(None)), &urich::validate_json);
    assert!(matches!(action, CallAction::Send(AsgiSendMessage::LifespanShutdownComplete)));
    let (_, action) = asgi.resume(
        &app,
        stage,
        CallEvent::Sent(Err(CoreError::Validation("send".to_string()))), &urich::validate_json
    );
    match action {
        CallAction::Finish(Err(CoreError::Validation(text))) => assert_eq!(text, "send"),
        other => panic!("expected the send error, got {:?}", other),
    }
}

#[test]
fn event_that_does_not_fit_the_stage_ends_the_call() {
    let app: App<Callback> = App::new();
    let asgi = front();
    let (stage, _) = asgi.call(http("GET", "a"));
    let (stage, action) = asgi.resume(&app, stage, CallEvent::Sent(Ok(())), &urich::validate_json);
    assert!(matches!(stage, CallStage::Finished));
    match action {
        CallAction::Finish(Err(CoreError::Validation(text))) => {
            assert_eq!(text, "protocol event out of step")
        }
        other => panic!("expected a validation error, got {:?}", other),
    }
    let (_, action) = asgi.resume(&app, CallStage::Finished, body_of(b""), &urich::validate_json);
    assert!(matches!(action, CallAction::Finish(Err(_))));
}


#[test]
fn own_paths_are_served_whatever_is_registered() {
    let mut app: App<Callback> = App::new();
    app.add_rpc_route("openapi.json").unwrap();
    app.add_rpc_method("m", Some(serde_json::Value::Null)).unwrap();
    app.register_route("GET", "docs", Some(serde_json::Value::Null), None).unwrap();
    let asgi = front();
    let validator = |_b: &[u8], _s: &serde_json::Value| -> Result<Vec<u8>, CoreError> {
        panic!("the protocol answers these paths itself")
    };
    let (stage, _) = asgi.call(http("POST", "/openapi.json"));
    let (stage, action) = asgi.resume(&app, stage, body_of(br#"{"method":"m"}"#), &validator);
    match stage {
        CallStage::PendingBody(document) => assert_eq!(document, asgi.render_spec(&app)),
        other => panic!("expected the document to be pending, got {:?}", other),
    }
    match action {
        CallAction::Send(AsgiSendMessage::HttpResponseStart { status, headers }) => {
            assert_eq!(status, 200);
            assert_eq!(
                headers,
                vec![("Content-Type".to_string(), "application/json".to_string())]
            );
        }
        other => panic!("expected the response start, got {:?}", other),
    }
    let (stage, _) = asgi.call(http("GET", "docs"));
    let (stage, action) = asgi.resume(&app, stage, body_of(b""), &validator);
    assert!(matches!(stage, CallStage::PendingBody(_)));
    match action {
        CallAction::Send(AsgiSendMessage::HttpResponseStart { status, headers }) => {
            assert_eq!(status, 200);
            assert_eq!(headers, vec![("Content-Type".to_string(), "text/html".to_string())]);
        }
        other => panic!("expected the response start, got {:?}", other),
    }
}

#[test]
fn request_that_fails_its_schema_ends_the_call_with_the_refusal() {
    let mut app: App<Callback> = App::new();
    app.register_route("POST", "a", Some(serde_json::Value::Null), None).unwrap();
    app.set_callback(Box::new(|_r: RouteId, _p: &[u8], _c: &RequestContext| {
        panic!("the request was refused")
    }));
    let asgi = front();
    let refuse = |_b: &[u8], _s: &serde_json::Value| -> Result<Vec<u8>, CoreError> {
        Err(CoreError::Validation("field 'id': expected string".to_string()))
    };
    let (stage, _) = asgi.call(http("POST", "a"));
    let (stage, action) = asgi.resume(&app, stage, body_of(b"{}"), &refuse);
    assert!(matches!(stage, CallStage::Finished));
    match action {
        CallAction::Finish(Err(CoreError::Validation(text))) => {
            assert_eq!(text, "field 'id': expected string")
        }
        other => panic!("expected the refusal, got {:?}", other),
    }
}
