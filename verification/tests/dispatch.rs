//! The application builder, the one-time installation and the installed
//! dispatch: middleware first, then the handler.

use std::cell::Cell;
use std::rc::Rc;

use urich::{
    Application, CoreError, DispatchAction, DispatchEvent, Dispatcher, RequestContext, Response,
    RouteId,
};

type Handler = Box<dyn Fn(serde_json::Value) -> Result<serde_json::Value, CoreError>>;
type Middleware = Box<dyn Fn(&RequestContext) -> Option<Response>>;
type External = Box<dyn Fn(RouteId, &[u8], &RequestContext) -> Result<Response, CoreError>>;
type Callback = Rc<dyn Fn(RouteId, &[u8], &RequestContext) -> Result<Response, CoreError>>;
type TestApp = Application<Handler, Middleware, Callback, External>;
type TestDispatcher = Dispatcher<Handler, Middleware, External>;

fn json(text: &str) -> serde_json::Value {
    serde_json::from_str(text).unwrap()
}

fn context(method: &str, path: &str, headers: &[(&str, &str)], body: &[u8]) -> RequestContext {
    RequestContext {
        method: method.to_string(),
        path: path.to_string(),
        headers: headers.iter().map(|(k, v)| (k.to_string(), v.to_string())).collect(),
        body: body.to_vec(),
    }
}

/// Carries out what a dispatch asks for until it is finished.
fn drive(
    dispatcher: &TestDispatcher,
    route_id: RouteId,
    body: &[u8],
    ctx: &RequestContext,
) -> Result<Response, CoreError> {
    let (mut run, mut action) = dispatcher.begin(route_id, body.to_vec());
    loop {
        action = match action {
            DispatchAction::RunMiddleware(index) => {
                let verdict = (dispatcher.middleware(index).unwrap())(ctx);
                dispatcher.resume(&mut run, DispatchEvent::MiddlewareDone(verdict))
            }
            DispatchAction::RunHandler { route_id, value } => {
                let result = (dispatcher.handler(route_id).unwrap())(value);
                dispatcher.resume(&mut run, DispatchEvent::HandlerDone(result))
            }
            DispatchAction::RunExternal { route_id } => {
                let result = (dispatcher.external().unwrap())(route_id, run.payload(), ctx);
                dispatcher.resume(&mut run, DispatchEvent::ExternalDone(result))
            }
            DispatchAction::Finish(result) => {
                assert!(run.is_finished());
                return result;
            }
        };
    }
}

fn make(dispatcher: TestDispatcher) -> Callback {
    Rc::new(move |rid: RouteId, body: &[u8], ctx: &RequestContext| {
        drive(&dispatcher, rid, body, ctx)
    })
}

/// One request through the builder: installation if needed, resolution,
/// then the dispatch function.
fn serve(
    app: &mut TestApp,
    method: &str,
    path: &str,
    headers: &[(&str, &str)],
    body: &[u8],
) -> Result<Response, CoreError> {
    let (_built, handler_id, payload) = app.handle_request(method, path, body, make, &urich::validate_json)?;
    let ctx = context(method, path, headers, body);
    let cb = Rc::clone(app.registry().get_callback().unwrap());
    cb(handler_id, &payload, &ctx)
}

fn counting_handler(calls: &Rc<Cell<u32>>) -> Handler {
    let calls = Rc::clone(calls);
    Box::new(move |value: serde_json::Value| {
        calls.set(calls.get() + 1);
        Ok(value)
    })
}

fn require_key() -> Middleware {
    Box::new(|ctx: &RequestContext| {
        let has_key = ctx
            .headers
            .iter()
            .any(|(k, v)| k.eq_ignore_ascii_case("x-demo-key") && !v.is_empty());
        if has_key {
            None
        } else {
            Some(Response {
                status_code: 401,
                body: b"{\"detail\":\"Missing X-Demo-Key header\"}".to_vec(),
                content_type: None,
            })
        }
    })
}

#[test]
fn middleware_answer_keeps_the_handler_from_running() {
    let calls = Rc::new(Cell::new(0));
    let mut app = TestApp::new();
    app.add_middleware(require_key());
    app.add_command("orders", "create", None, counting_handler(&calls)).unwrap();
    let out = serve(&mut app, "POST", "orders/commands/create", &[], b"{\"a\":1}").unwrap();
    assert_eq!(out.status_code, 401);
    assert_eq!(out.body, b"{\"detail\":\"Missing X-Demo-Key header\"}");
    assert_eq!(calls.get(), 0);
}

#[test]
fn meeting_the_middleware_condition_lets_the_handler_run() {
    let calls = Rc::new(Cell::new(0));
    let mut app = TestApp::new();
    app.add_middleware(require_key());
    app.add_command("orders", "create", None, counting_handler(&calls)).unwrap();
    let out = serve(
        &mut app,
        "POST",
        "orders/commands/create",
        &[("X-Demo-Key", "k")],
        b"{\"a\":1}",
    )
    .unwrap();
    assert_eq!(out.status_code, 200);
    assert_eq!(out.body, b"{\"a\":1}");
    assert_eq!(out.content_type, None);
    assert_eq!(calls.get(), 1);
}

#[test]
fn without_the_middleware_the_handler_runs() {
    let calls = Rc::new(Cell::new(0));
    let mut app = TestApp::new();
    app.add_command("orders", "create", None, counting_handler(&calls)).unwrap();
    let out = serve(&mut app, "POST", "orders/commands/create", &[], b"{\"a\":1}").unwrap();
    assert_eq!(out.status_code, 200);
    assert_eq!(calls.get(), 1);
}

#[test]
fn middleware_runs_in_registration_order_and_stops_at_the_first_answer() {
    let order = Rc::new(std::cell::RefCell::new(Vec::<u8>::new()));
    let calls = Rc::new(Cell::new(0));
    let mut app = TestApp::new();
    for (tag, status) in [(1u8, None), (2u8, Some(403u16)), (3u8, Some(500u16))] {
        let order = Rc::clone(&order);
        app.add_middleware(Box::new(move |_ctx: &RequestContext| {
            order.borrow_mut().push(tag);
            status.map(|code| Response { status_code: code, body: vec![tag], content_type: None })
        }));
    }
    app.register_route("GET", "x", None, counting_handler(&calls), None).unwrap();
    let out = serve(&mut app, "GET", "x", &[], b"").unwrap();
    assert_eq!(out.status_code, 403);
    assert_eq!(out.body, vec![2u8]);
    assert_eq!(*order.borrow(), vec![1u8, 2u8]);
    assert_eq!(calls.get(), 0);
}

#[test]
fn installing_twice_is_installing_once() {
    let made = Rc::new(Cell::new(0));
    let calls = Rc::new(Cell::new(0));
    let mut app = TestApp::new();
    app.add_query("orders", "get", None, counting_handler(&calls)).unwrap();
    for _ in 0..2 {
        let made = Rc::clone(&made);
        app.install_callback(move |d: TestDispatcher| {
            made.set(made.get() + 1);
            make(d)
        });
    }
    assert_eq!(made.get(), 1);
    let again = Rc::clone(&made);
    let (_ctx, id, payload) = app
        .handle_request("GET", "orders/queries/get", b"[1]", move |d: TestDispatcher| {
            again.set(again.get() + 1);
            make(d)
        }, &urich::validate_json)
        .unwrap();
    assert_eq!(made.get(), 1);
    let cb = Rc::clone(app.registry().get_callback().unwrap());
    let out = cb(id, &payload, &context("GET", "orders/queries/get", &[], b"[1]")).unwrap();
    assert_eq!(out.body, b"[1]");
    assert_eq!(calls.get(), 1);
}

#[test]
fn second_installation_keeps_the_first_dispatch_function() {
    let mut app = TestApp::new();
    app.register_route("GET", "a", None, Box::new(|_v| Ok(json("\"first\""))), None).unwrap();
    app.install_callback(make);
    let first = Rc::clone(app.registry().get_callback().unwrap());
    app.install_callback(|_d: TestDispatcher| -> Callback {
        Rc::new(|_r: RouteId, _b: &[u8], _c: &RequestContext| {
            Err(CoreError::Validation("second".into()))
        })
    });
    let kept = app.registry().get_callback().unwrap();
    assert!(Rc::ptr_eq(&first, kept));
    let out = serve(&mut app, "GET", "a", &[], b"").unwrap();
    assert_eq!(out.body, b"\"first\"");
}

#[test]
fn handlers_registered_after_installation_are_not_reached() {
    let mut app = TestApp::new();
    app.register_route("GET", "early", None, Box::new(|_v| Ok(json("1"))), None).unwrap();
    app.install_callback(make);
    app.register_route("GET", "late", None, Box::new(|_v| Ok(json("2"))), None).unwrap();
    assert_eq!(serve(&mut app, "GET", "early", &[], b"").unwrap().body, b"1");
    let err = serve(&mut app, "GET", "late", &[], b"").unwrap_err();
    match err {
        CoreError::NotFound(text) => assert_eq!(text, "route_id RouteId(1)"),
        other => panic!("expected NotFound, got {:?}", other),
    }
}

#[test]
fn request_to_a_builder_without_handlers_finds_no_callback() {
    let mut app = TestApp::new();
    app.register_route_only("GET", "a", None, None).unwrap();
    let made = Rc::new(Cell::new(0));
    let counter = Rc::clone(&made);
    let err = app
        .handle_request("GET", "a", b"", move |d: TestDispatcher| {
            counter.set(counter.get() + 1);
            make(d)
        }, &urich::validate_json)
        .unwrap_err();
    assert_eq!(made.get(), 0);
    match err {
        CoreError::Validation(text) => assert_eq!(text, "no callback set"),
        other => panic!("expected Validation, got {:?}", other),
    }
}

#[test]
fn empty_payload_reaches_the_handler_as_null() {
    let mut app = TestApp::new();
    app.register_route(
        "GET",
        "null",
        None,
        Box::new(|v| {
            assert!(v.is_null());
            Ok(json("{\"was_null\":true}"))
        }),
        None,
    )
    .unwrap();
    let out = serve(&mut app, "GET", "null", &[], b"").unwrap();
    assert_eq!(out.body, b"{\"was_null\":true}");
}

#[test]
fn payload_that_is_no_json_is_a_validation_error() {
    let calls = Rc::new(Cell::new(0));
    let mut app = TestApp::new();
    app.register_route("POST", "a", None, counting_handler(&calls), None).unwrap();
    let err = serve(&mut app, "POST", "a", &[], b"{oops").unwrap_err();
    assert!(matches!(err, CoreError::Validation(_)));
    assert_eq!(calls.get(), 0);
}

#[test]
fn handler_error_is_the_result() {
    let mut app = TestApp::new();
    app.register_route(
        "POST",
        "a",
        None,
        Box::new(|_v| Err(CoreError::NotFound("order 7".into()))),
        None,
    )
    .unwrap();
    let err = serve(&mut app, "POST", "a", &[], b"{}").unwrap_err();
    match err {
        CoreError::NotFound(text) => assert_eq!(text, "order 7"),
        other => panic!("expected the handler's error, got {:?}", other),
    }
}

#[test]
fn handler_value_is_written_compactly() {
    let mut app = TestApp::new();
    app.register_route(
        "POST",
        "a",
        None,
        Box::new(|_v| Ok(json("{ \"b\" : [1, 2],  \"a\" : null }"))),
        None,
    )
    .unwrap();
    let out = serve(&mut app, "POST", "a", &[], b"{}").unwrap();
    assert_eq!(out.body, b"{\"a\":null,\"b\":[1,2]}");
}

#[test]
fn external_function_stands_in_for_all_handlers() {
    let mut app = TestApp::new();
    let id = app.add_command_route("orders", "create", None).unwrap();
    let q = app.add_query_route("orders", "get", None).unwrap();
    app.add_middleware(Box::new(|_ctx| None));
    app.set_external_callback(Box::new(move |rid: RouteId, body: &[u8], ctx: &RequestContext| {
        let mut out = vec![rid.0 as u8];
        out.extend_from_slice(body);
        out.extend_from_slice(ctx.method.as_bytes());
        Ok(Response { status_code: 201, body: out, content_type: Some("text/plain".into()) })
    }));
    let out = serve(&mut app, "POST", "orders/commands/create", &[], b"raw").unwrap();
    assert_eq!(out.status_code, 201);
    assert_eq!(out.body, [&[id.0 as u8][..], b"raw", b"POST"].concat());
    assert_eq!(out.content_type.as_deref(), Some("text/plain"));
    let out = serve(&mut app, "GET", "orders/queries/get", &[], b"").unwrap();
    assert_eq!(out.body, [&[q.0 as u8][..], b"GET"].concat());
}

#[test]
fn event_that_does_not_fit_the_stage_ends_the_dispatch() {
    let dispatcher: TestDispatcher = Dispatcher::new(
        std::collections::HashMap::new(),
        vec![Box::new(|_ctx: &RequestContext| None) as Middleware],
        None,
    );
    assert_eq!(dispatcher.middleware_count(), 1);
    assert!(dispatcher.middleware(1).is_none());
    let (mut run, action) = dispatcher.begin(RouteId(0), Vec::new());
    assert!(matches!(action, DispatchAction::RunMiddleware(0)));
    assert!(!run.is_finished());
    let action = dispatcher.resume(
        &mut run,
        DispatchEvent::HandlerDone(Ok(serde_json::Value::Null)),
    );
    match action {
        DispatchAction::Finish(Err(CoreError::Validation(text))) => {
            assert_eq!(text, "dispatch event out of step")
        }
        other => panic!("expected a validation error, got {:?}", other),
    }
    assert!(run.is_finished());
}

#[test]
fn dispatch_without_middleware_goes_straight_to_the_handler() {
    let mut handlers: std::collections::HashMap<u32, Handler> = std::collections::HashMap::new();
    handlers.insert(4, Box::new(|v| Ok(v)));
    let dispatcher: TestDispatcher = Dispatcher::new(handlers, Vec::new(), None);
    let (run, action) = dispatcher.begin(RouteId(4), b"{\"k\":true}".to_vec());
    match action {
        DispatchAction::RunHandler { route_id, value } => {
            assert_eq!(route_id, RouteId(4));
            assert_eq!(value, json("{\"k\":true}"));
        }
        other => panic!("expected the handler, got {:?}", other),
    }
    assert_eq!(run.payload(), b"{\"k\":true}");
    let (_run, action) = dispatcher.begin(RouteId(5), Vec::new());
    match action {
        DispatchAction::Finish(Err(CoreError::NotFound(text))) => {
            assert_eq!(text, "route_id RouteId(5)")
        }
        other => panic!("expected NotFound, got {:?}", other),
    }
}

#[test]
fn publish_by_name_goes_through_the_installed_dispatch() {
    let calls = Rc::new(Cell::new(0));
    let mut app = TestApp::new();
    let sub = app.subscribe_event_route("Created");
    let counter = Rc::clone(&calls);
    app.set_external_callback(Box::new(move |rid: RouteId, body: &[u8], _c: &RequestContext| {
        assert_eq!(body, b"{\"id\":1}");
        counter.set(counter.get() + rid.0 + 1);
        Ok(Response { status_code: 200, body: Vec::new(), content_type: None })
    }));
    assert!(app.publish_event_by_name("Created", b"{}").is_err());
    app.install_callback(make);
    let mut publication = app.publish_event_by_name("Created", b"{\"id\":1}").unwrap();
    let mut last = None;
    loop {
        match publication.advance(last) {
            urich::PublishStep::Invoke(id) => {
                assert_eq!(id, sub);
                let cb = app.registry().get_callback().unwrap();
                last = Some(cb(id, b"{\"id\":1}", publication.context()));
            }
            urich::PublishStep::Done(result) => {
                result.unwrap();
                break;
            }
        }
    }
    assert_eq!(calls.get(), sub.0 + 1);
}
