//! Errors, validation, the container, discovery and the RPC building block.

use std::any::{Any, TypeId};
use std::cell::Cell;
use std::rc::Rc;

use vstd::hash_map::StringHashMap;

use urich::rpc::{
    envelope, method_payload, open_envelope, plan_call, read_answer, read_reply, settle_payload,
    RpcBinding,
};
use urich::{
    settle_validation, validate_json, App, Application, Container, ContainerError, CoreError, DiscoveryModule,
    EventBusModule, Factory, RequestContext, Response, RouteId, RpcClient, RpcError, RpcModule,
    ServiceDiscovery, StaticDiscovery,
};

type Instance = Box<dyn Any>;

struct Make(Box<dyn Fn(&mut Container<Instance, Make>) -> Instance>);

impl Factory<Instance> for Make {
    fn build(&self, container: &mut Container<Instance, Make>) -> Instance {
        (self.0)(container)
    }
}

fn number(value: &Instance) -> u32 {
    *value.downcast_ref::<u32>().unwrap()
}

#[test]
fn error_status_and_message_follow_the_kind() {
    let not_found = CoreError::NotFound("GET x".to_string());
    assert_eq!(not_found.status_code(), 404);
    assert_eq!(not_found.message(), "route not found: GET x");
    let validation = CoreError::Validation("bad".to_string());
    assert_eq!(validation.status_code(), 400);
    assert_eq!(validation.message(), "validation error: bad");
    let json = CoreError::Json("eof".to_string());
    assert_eq!(json.status_code(), 400);
    assert_eq!(json.message(), "invalid JSON: eof");
}

#[test]
fn verdict_of_the_validator_settles_the_request() {
    let accepted = settle_validation(RouteId(3), Ok(b" {\"id\": 1} ".to_vec())).unwrap();
    assert_eq!(accepted, (RouteId(3), b" {\"id\": 1} ".to_vec()));
    match settle_validation(RouteId(3), Err(CoreError::Validation("missing id".into()))) {
        Err(CoreError::Validation(text)) => assert_eq!(text, "missing id"),
        other => panic!("expected the refusal, got {:?}", other),
    }
}

#[test]
fn well_formed_json_is_handed_back_unchanged() {
    let schema: serde_json::Value = serde_json::from_slice(br#"{"type":"object"}"#).unwrap();
    for body in [&b"{}"[..], b" [1,\n 2] ", b"\"text\"", b"12", b"null"] {
        assert_eq!(validate_json(body, &schema).unwrap(), body.to_vec());
        assert_eq!(validate_json(body, &serde_json::Value::Null).unwrap(), body.to_vec());
    }
}

#[test]
fn malformed_json_is_a_validation_error_with_the_reading_error() {
    for body in [&b""[..], b"{", b"{\"a\":}", b"[1,]", b"nul", b"{} {}"] {
        let expected = serde_json::from_slice::<serde_json::Value>(body).unwrap_err().to_string();
        match validate_json(body, &serde_json::Value::Null) {
            Err(CoreError::Validation(text)) => assert_eq!(text, expected),
            other => panic!("expected Validation, got {:?}", other),
        }
    }
    match validate_json(b"", &serde_json::Value::Null) {
        Err(e) => {
            assert_eq!(e.status_code(), 400);
            assert_eq!(
                e.message(),
                "validation error: EOF while parsing a value at line 1 column 0"
            );
        }
        Ok(_) => panic!("an empty body is not JSON"),
    }
}

#[test]
fn text_helpers_concatenate() {
    assert_eq!(urich::text::join("ab", "cd"), "abcd");
    assert_eq!(urich::text::join3("a", "", "c"), "ac");
}

#[test]
fn registered_instance_is_resolved_by_its_type() {
    let mut c: Container<Instance, Make> = Container::new();
    c.register_instance(TypeId::of::<u32>(), Box::new(5u32));
    c.register_instance(TypeId::of::<String>(), Box::new("s".to_string()));
    assert_eq!(number(c.resolve(TypeId::of::<u32>()).unwrap()), 5);
    let text = c.resolve(TypeId::of::<String>()).unwrap();
    assert_eq!(text.downcast_ref::<String>().unwrap(), "s");
    c.register_instance(TypeId::of::<u32>(), Box::new(6u32));
    assert_eq!(number(c.resolve(TypeId::of::<u32>()).unwrap()), 6);
}

#[test]
fn resolve_without_registration_is_not_found() {
    let mut c: Container<Instance, Make> = Container::default();
    let err = c.resolve(TypeId::of::<u32>()).err().unwrap();
    assert!(matches!(err, ContainerError::NotFound));
    assert_eq!(err.message(), "no registration for type");
    assert!(c.resolve_mut(TypeId::of::<u32>()).is_err());
    assert!(c.resolve_by_key("missing", TypeId::of::<u32>()).is_err());
}

#[test]
fn factory_runs_once_and_its_product_is_kept() {
    let runs = Rc::new(Cell::new(0));
    let counter = Rc::clone(&runs);
    let mut c: Container<Instance, Make> = Container::new();
    c.register_factory(
        TypeId::of::<u32>(),
        Make(Box::new(move |_c| {
            counter.set(counter.get() + 1);
            Box::new(40u32 + counter.get())
        })),
    );
    assert_eq!(number(c.resolve(TypeId::of::<u32>()).unwrap()), 41);
    assert_eq!(number(c.resolve(TypeId::of::<u32>()).unwrap()), 41);
    assert_eq!(runs.get(), 1);
}

#[test]
fn factory_resolves_what_it_depends_on() {
    let mut c: Container<Instance, Make> = Container::new();
    c.register_instance(TypeId::of::<u32>(), Box::new(20u32));
    c.register_factory(
        TypeId::of::<u64>(),
        Make(Box::new(|c| {
            let base = number(c.resolve(TypeId::of::<u32>()).unwrap());
            Box::new(u64::from(base) + 1)
        })),
    );
    let built = c.resolve(TypeId::of::<u64>()).unwrap();
    assert_eq!(*built.downcast_ref::<u64>().unwrap(), 21);
}

#[test]
fn instance_takes_precedence_over_factory() {
    let mut c: Container<Instance, Make> = Container::new();
    c.register_factory(TypeId::of::<u32>(), Make(Box::new(|_c| panic!("not needed"))));
    c.register_instance(TypeId::of::<u32>(), Box::new(1u32));
    assert_eq!(number(c.resolve(TypeId::of::<u32>()).unwrap()), 1);
}

#[test]
fn resolve_mut_changes_the_instance_in_place_and_runs_no_factory() {
    let mut c: Container<Instance, Make> = Container::new();
    c.register_factory(TypeId::of::<u64>(), Make(Box::new(|_c| panic!("no factory here"))));
    assert!(c.resolve_mut(TypeId::of::<u64>()).is_err());
    c.register_instance(TypeId::of::<u32>(), Box::new(1u32));
    *c.resolve_mut(TypeId::of::<u32>()).unwrap() = Box::new(9u32);
    assert_eq!(number(c.resolve(TypeId::of::<u32>()).unwrap()), 9);
}

#[test]
fn keyed_instances_and_factories_are_resolved_by_key() {
    let runs = Rc::new(Cell::new(0));
    let counter = Rc::clone(&runs);
    let number_type = TypeId::of::<u32>();
    let mut c: Container<Instance, Make> = Container::new();
    c.register_instance_with_key("config".to_string(), number_type, Box::new(3u32));
    c.register_factory_with_key(
        "lazy".to_string(),
        number_type,
        Make(Box::new(move |c| {
            counter.set(counter.get() + 1);
            Box::new(number(c.resolve_by_key("config", TypeId::of::<u32>()).unwrap()) * 2)
        })),
    );
    assert_eq!(runs.get(), 0);
    assert_eq!(number(c.resolve_by_key("config", number_type).unwrap()), 3);
    assert_eq!(number(c.resolve_by_key("lazy", number_type).unwrap()), 6);
    assert_eq!(number(c.resolve_by_key("lazy", number_type).unwrap()), 6);
    assert_eq!(runs.get(), 1);
    assert!(c.resolve_by_key("Config", number_type).is_err());
    assert!(c.resolve(number_type).is_err());
}

#[test]
fn keyed_instance_of_another_type_is_refused() {
    let mut c: Container<Instance, Make> = Container::new();
    c.register_instance_with_key("k".to_string(), TypeId::of::<u32>(), Box::new(1u32));
    assert_eq!(number(c.resolve_by_key("k", TypeId::of::<u32>()).unwrap()), 1);
    let err = c.resolve_by_key("k", TypeId::of::<String>()).err().unwrap();
    assert!(matches!(err, ContainerError::NotFound));
    assert!(c.resolve_by_key("other", TypeId::of::<u32>()).is_err());
    assert_eq!(number(c.resolve_by_key("k", TypeId::of::<u32>()).unwrap()), 1);
}

#[test]
fn keyed_factory_for_another_type_runs_once_and_is_refused() {
    let runs = Rc::new(Cell::new(0));
    let counter = Rc::clone(&runs);
    let mut c: Container<Instance, Make> = Container::new();
    c.register_factory_with_key(
        "k".to_string(),
        TypeId::of::<u32>(),
        Make(Box::new(move |_c| {
            counter.set(counter.get() + 1);
            Box::new(7u32)
        })),
    );
    assert!(c.resolve_by_key("k", TypeId::of::<String>()).is_err());
    assert_eq!(runs.get(), 1);
    assert_eq!(number(c.resolve_by_key("k", TypeId::of::<u32>()).unwrap()), 7);
    assert!(c.resolve_by_key("k", TypeId::of::<u64>()).is_err());
    assert_eq!(runs.get(), 1);
}

#[test]
fn first_resolve_returns_what_the_factory_built_and_later_ones_the_same() {
    let runs = Rc::new(Cell::new(0u32));
    let counter = Rc::clone(&runs);
    let mut c: Container<Instance, Make> = Container::new();
    c.register_factory(
        TypeId::of::<u32>(),
        Make(Box::new(move |c| {
            counter.set(counter.get() + 1);
            c.register_instance(TypeId::of::<u64>(), Box::new(u64::from(counter.get())));
            Box::new(100 + counter.get())
        })),
    );
    assert_eq!(runs.get(), 0);
    assert_eq!(number(c.resolve(TypeId::of::<u32>()).unwrap()), 101);
    for _ in 0..3 {
        assert_eq!(number(c.resolve(TypeId::of::<u32>()).unwrap()), 101);
    }
    assert_eq!(runs.get(), 1);
    let side = c.resolve(TypeId::of::<u64>()).unwrap();
    assert_eq!(*side.downcast_ref::<u64>().unwrap(), 1);
}

#[test]
fn static_discovery_answers_from_its_directory() {
    let discovery = StaticDiscovery::from_slice(&[
        ("orders", "http://a"),
        ("users", "http://b"),
        ("orders", "http://c"),
    ]);
    assert_eq!(discovery.resolve("orders"), vec!["http://c".to_string()]);
    assert_eq!(discovery.lookup("users"), vec!["http://b".to_string()]);
    assert!(discovery.resolve("billing").is_empty());
    assert!(StaticDiscovery::default().resolve("orders").is_empty());
    assert!(StaticDiscovery::from_slice(&[]).resolve("").is_empty());
}

fn resolve_through(adapter: urich::discovery::Adapter, name: &str) -> Vec<String> {
    match adapter {
        urich::discovery::Adapter::Static(s) => s.resolve(name),
        urich::discovery::Adapter::Custom(c) => c.resolve(name),
    }
}

struct Fixed;

impl ServiceDiscovery for Fixed {
    fn resolve(&self, service_name: &str) -> Vec<String> {
        vec![format!("http://{}.internal", service_name)]
    }
}

#[test]
fn discovery_module_hands_out_its_choice_once() {
    let mut module = DiscoveryModule::new().static_slice(&[("orders", "http://a")]);
    assert_eq!(resolve_through(module.take_adapter(), "orders"), vec!["http://a".to_string()]);
    assert!(resolve_through(module.take_adapter(), "orders").is_empty());

    let mut module = DiscoveryModule::default().adapter(Box::new(Fixed));
    assert_eq!(
        resolve_through(module.take_adapter(), "users"),
        vec!["http://users.internal".to_string()]
    );

    let mut module = DiscoveryModule::new()
        .adapter(Box::new(Fixed))
        .static_slice(&[("x", "http://x")]);
    assert_eq!(resolve_through(module.take_adapter(), "x"), vec!["http://x".to_string()]);
}

#[test]
fn event_bus_module_is_a_plain_value() {
    let a = EventBusModule::new();
    let b = EventBusModule::default();
    assert_eq!(format!("{:?}", a), format!("{:?}", b));
}

#[test]
fn rpc_error_messages_name_their_kind() {
    let server = RpcError::Server { code: "E1".to_string(), message: "down".to_string() };
    assert_eq!(server.message(), "[E1] down");
    assert_eq!(
        RpcError::ServiceUnavailable("x".to_string()).message(),
        "service unavailable: x"
    );
    assert_eq!(RpcError::Transport("t".to_string()).message(), "transport error: t");
}

#[test]
fn call_takes_the_first_url_and_builds_the_envelope() {
    let client: RpcClient<()> = RpcClient::new(
        Box::new(StaticDiscovery::from_slice(&[("orders", "http://orders")])),
        (),
    );
    let params: serde_json::Value = serde_json::from_slice(br#"{"id":7}"#).unwrap();
    let request = client.call("orders", "get_order", params).unwrap();
    assert_eq!(request.url, "http://orders");
    assert_eq!(request.method, "get_order");
    assert_eq!(request.body, br#"{"method":"get_order","params":{"id":7}}"#);
    client.transport();
}

#[test]
fn call_to_an_unknown_service_is_unavailable() {
    let client: RpcClient<()> = RpcClient::new(Box::new(StaticDiscovery::default()), ());
    match client.call("orders", "m", serde_json::Value::Null).unwrap_err() {
        RpcError::ServiceUnavailable(text) => assert_eq!(text, "service \"orders\" not found"),
        other => panic!("expected ServiceUnavailable, got {:?}", other),
    }
}

#[test]
fn planned_call_sends_an_empty_body_when_the_envelope_could_not_be_written() {
    let request = plan_call(
        vec!["http://a".to_string(), "http://b".to_string()],
        "svc",
        "m",
        Err("encoding failed".to_string()),
    )
    .unwrap();
    assert_eq!(request.url, "http://a");
    assert!(request.body.is_empty());
    assert!(plan_call(Vec::new(), "svc", "m", Ok(vec![1])).is_err());
}

#[test]
fn answer_is_read_as_json_or_is_a_transport_error() {
    let value = read_answer(b" {\"ok\": true} ").unwrap();
    assert_eq!(value, serde_json::from_slice::<serde_json::Value>(b"{\"ok\":true}").unwrap());
    match read_answer(b"<html>").unwrap_err() {
        RpcError::Transport(text) => assert!(!text.is_empty()),
        other => panic!("expected Transport, got {:?}", other),
    }
}

#[test]
fn envelope_is_what_the_registry_takes_apart() {
    let params: serde_json::Value = serde_json::from_slice(br#"{"a":[1,2]}"#).unwrap();
    let body = serde_json::to_vec(&envelope("add", params)).unwrap();
    let mut app: App<()> = App::new();
    app.add_rpc_route("rpc").unwrap();
    let add = app.add_rpc_method("add", None).unwrap();
    let hit = app
        .match_route_and_validate(&RequestContext {
            method: "POST".to_string(),
            path: "rpc".to_string(),
            headers: vec![],
            body,
        }, &urich::validate_json)
        .unwrap();
    assert_eq!(hit.0, add);
    assert_eq!(hit.1, br#"{"a":[1,2]}"#);
}

type Handler = Rc<dyn Fn(&str) -> String>;
type RpcApp = Application<Handler, (), (), ()>;

fn bind_all(server: String) -> impl Fn(RpcBinding) -> Handler {
    move |binding: RpcBinding| -> Handler {
        let label = match binding {
            RpcBinding::Method(name) => format!("{}:{}", server, name),
            RpcBinding::Route => format!("{}:*", server),
        };
        Rc::new(move |input: &str| format!("{}({})", label, input))
    }
}

fn resolve(app: &RpcApp, method: &str, path: &str, body: &[u8]) -> Result<(RouteId, Vec<u8>), CoreError> {
    app.registry().match_route_and_validate(&RequestContext {
        method: method.to_string(),
        path: path.to_string(),
        headers: vec![],
        body: body.to_vec(),
    }, &urich::validate_json)
}

#[test]
fn rpc_module_with_method_names_registers_route_and_methods() {
    let mut app = RpcApp::new();
    app.register_route_only("GET", "health", None, None).unwrap();
    let mut module: RpcModule<String, u8> = RpcModule::new()
        .server("/rpc/", "srv".to_string())
        .methods(&["get_foo", "add"])
        .client(Box::new(StaticDiscovery::from_slice(&[("s", "http://s")])), 9u8);
    let client = module.register_into(&mut app, bind_all).unwrap().unwrap();
    assert_eq!(*client.transport(), 9);
    let (id, payload) =
        resolve(&app, "POST", "rpc", br#"{"method":"add","params":[1]}"#).unwrap();
    assert_eq!(id, RouteId(3));
    assert_eq!(payload, b"[1]");
    let (id, _) = resolve(&app, "POST", "rpc", br#"{"method":"get_foo"}"#).unwrap();
    assert_eq!(id, RouteId(2));
    assert_eq!(app.registry().route(RouteId(1)).unwrap().openapi_tag.as_deref(), Some("RPC"));

    let mut seen = Vec::new();
    app.install_callback(|d| {
        for id in [RouteId(2), RouteId(3)] {
            seen.push((d.handler(id).unwrap())("x"));
        }
        assert!(d.handler(RouteId(1)).is_none());
    });
    assert_eq!(seen, vec!["srv:get_foo(x)".to_string(), "srv:add(x)".to_string()]);

    assert!(module.register_into(&mut app, bind_all).unwrap().is_none());
    assert!(resolve(&app, "POST", "rpc", br#"{"method":"add"}"#).is_ok());
    assert_eq!(app.register_route_only("GET", "next", None, None).unwrap(), RouteId(4));
}

#[test]
fn rpc_module_leaves_earlier_handlers_in_place() {
    let mut app = RpcApp::new();
    let first = bind_all("first".to_string())(RpcBinding::Route);
    assert_eq!(app.register_route("GET", "health", None, first, None).unwrap(), RouteId(0));
    let mut with_names: RpcModule<String, u8> =
        RpcModule::new().server("rpc", "srv".to_string()).methods(&["a"]);
    with_names.register_into(&mut app, bind_all).unwrap();
    let mut plain: RpcModule<String, u8> = RpcModule::new().server("other", "alt".to_string());
    plain.register_into(&mut app, bind_all).unwrap();
    let mut seen = Vec::new();
    app.install_callback(|d| {
        for id in [0, 1, 2, 3, 4] {
            seen.push(d.handler(RouteId(id)).map(|h| h("x")));
        }
    });
    assert_eq!(
        seen,
        vec![
            Some("first:*(x)".to_string()),
            None,
            Some("srv:a(x)".to_string()),
            Some("alt:*(x)".to_string()),
            None
        ]
    );
}

#[test]
fn rpc_module_without_method_names_registers_one_plain_route() {
    let mut app = RpcApp::new();
    let mut module: RpcModule<String, u8> = RpcModule::new().server("rpc", "srv".to_string());
    assert!(module.register_into(&mut app, bind_all).unwrap().is_none());
    let (id, payload) = resolve(&app, "POST", "/rpc", br#"{"method":"x"}"#).unwrap();
    assert_eq!(id, RouteId(0));
    assert_eq!(payload, br#"{"method":"x"}"#);
    assert_eq!(app.registry().route(RouteId(0)).unwrap().openapi_tag, None);
    let mut label = String::new();
    app.install_callback(|d| label = (d.handler(RouteId(0)).unwrap())("in"));
    assert_eq!(label, "srv:*(in)");
}

#[test]
fn rpc_module_without_a_server_registers_nothing() {
    let mut app = RpcApp::new();
    let mut module: RpcModule<String, u8> = RpcModule::new().methods(&["a"]);
    let shared = Rc::new(Cell::new(false));
    let flag = Rc::clone(&shared);
    let client = module
        .register_into(&mut app, move |s: String| {
            flag.set(true);
            bind_all(s)
        })
        .unwrap();
    assert!(client.is_none());
    assert!(!shared.get());
    assert_eq!(app.register_route_only("GET", "first", None, None).unwrap(), RouteId(0));
    let _unused: Option<Response> = None;
}

#[test]
fn static_discovery_from_a_directory() {
    let mut services: StringHashMap<String> = StringHashMap::new();
    services.insert("orders".to_string(), "http://a".to_string());
    let discovery = StaticDiscovery::new(services);
    assert_eq!(discovery.resolve("orders"), vec!["http://a".to_string()]);
    assert!(discovery.resolve("users").is_empty());
    let mut services: StringHashMap<String> = StringHashMap::new();
    services.insert("users".to_string(), "http://u".to_string());
    let mut module = DiscoveryModule::new().static_discovery(services);
    match module.take_adapter() {
        urich::discovery::Adapter::Static(s) => {
            assert_eq!(s.resolve("users"), vec!["http://u".to_string()])
        }
        urich::discovery::Adapter::Custom(_) => panic!("expected the directory"),
    }
}

#[test]
fn method_payload_is_the_parameters_written_out() {
    let params: serde_json::Value = serde_json::from_str(" { \"b\" : [1, 2], \"a\" : \"x\" } ").unwrap();
    assert_eq!(method_payload(&params), br#"{"a":"x","b":[1,2]}"#);
    assert_eq!(method_payload(&serde_json::Value::Null), b"null");
    assert_eq!(method_payload(&serde_json::Value::String(String::new())), b"\"\"");
}

#[test]
fn payload_is_what_was_written_or_nothing() {
    assert_eq!(settle_payload(Ok(b"{\"a\":1}".to_vec())), b"{\"a\":1}");
    assert_eq!(settle_payload(Ok(Vec::new())), b"");
    assert_eq!(settle_payload(Err("could not write".to_string())), b"");
}

#[test]
fn envelope_is_opened_into_method_and_payload() {
    let body: serde_json::Value =
        serde_json::from_str(r#"{"method":"add","params":{"a":1},"other":true}"#).unwrap();
    assert_eq!(open_envelope(&body), ("add".to_string(), br#"{"a":1}"#.to_vec()));
    let body: serde_json::Value = serde_json::from_str(r#"{"method":5}"#).unwrap();
    assert_eq!(open_envelope(&body), (String::new(), b"null".to_vec()));
    assert_eq!(open_envelope(&serde_json::Value::Null), (String::new(), b"null".to_vec()));
}

#[test]
fn reply_is_read_as_json_or_is_a_validation_error() {
    let value = read_reply(b"[1, 2]").unwrap();
    assert_eq!(serde_json::to_vec(&value).unwrap(), b"[1,2]");
    match read_reply(b"not json").unwrap_err() {
        CoreError::Validation(text) => assert!(!text.is_empty()),
        other => panic!("expected Validation, got {:?}", other),
    }
}
