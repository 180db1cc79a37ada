//! Domain and HTTP modules, derived names and the in-process event bus.

use std::any::TypeId;
use std::cell::RefCell;
use std::rc::Rc;

use urich::{
    replace_template, snake_case, type_name_to_snake_case, Application, CoreError, DomainModule,
    EventBus, HttpModule, RequestContext, RouteId,
};

type Handler = &'static str;
type App = Application<Handler, (), (), ()>;

fn resolve(app: &App, method: &str, path: &str) -> Result<RouteId, CoreError> {
    app.registry()
        .match_route_and_validate(&RequestContext {
            method: method.to_string(),
            path: path.to_string(),
            headers: vec![],
            body: Vec::new(),
        }, &urich::validate_json)
        .map(|hit| hit.0)
}

fn handlers_of(app: &mut App, ids: &[u32]) -> Vec<Option<Handler>> {
    let mut found = Vec::new();
    app.install_callback(|d| {
        for id in ids {
            found.push(d.handler(RouteId(*id)).copied());
        }
    });
    found
}

#[test]
fn domain_module_registers_commands_then_queries() {
    let mut app = App::new();
    app.register_route_only("GET", "health", None, None).unwrap();
    let mut module: DomainModule<Handler> = DomainModule::new("orders")
        .aggregate("order")
        .query("get_order", "q1")
        .command("create_order", "c1")
        .command("cancel_order", "c2");
    module.register_into(&mut app).unwrap();
    assert_eq!(resolve(&app, "POST", "orders/commands/create_order").unwrap(), RouteId(1));
    assert_eq!(resolve(&app, "POST", "orders/commands/cancel_order").unwrap(), RouteId(2));
    assert_eq!(resolve(&app, "GET", "orders/queries/get_order").unwrap(), RouteId(3));
    assert!(resolve(&app, "GET", "orders/commands/create_order").is_err());
    let route = app.registry().route(RouteId(3)).unwrap();
    assert_eq!(route.openapi_tag.as_deref(), Some("orders"));
    assert_eq!(
        handlers_of(&mut app, &[0, 1, 2, 3, 4]),
        vec![None, Some("c1"), Some("c2"), Some("q1"), None]
    );
}

#[test]
fn domain_module_is_empty_after_registration() {
    let mut app = App::new();
    let mut module: DomainModule<Handler> = DomainModule::new("/users/").command("add", "h");
    module.register_into(&mut app).unwrap();
    module.register_into(&mut app).unwrap();
    assert_eq!(resolve(&app, "POST", "users/commands/add").unwrap(), RouteId(0));
    assert_eq!(app.register_route_only("GET", "next", None, None).unwrap(), RouteId(1));
}

#[test]
fn http_module_prefix_defaults_to_its_name() {
    let module: HttpModule<Handler> = HttpModule::new("shop", None);
    assert_eq!(module.name(), "shop");
    assert_eq!(module.prefix(), "/shop");
    let module: HttpModule<Handler> = HttpModule::new("shop", Some("/api/v1/"));
    assert_eq!(module.prefix(), "/api/v1/");
}

#[test]
fn http_module_registers_each_method_of_each_route() {
    let mut app = App::new();
    let mut module: HttpModule<Handler> = HttpModule::new("shop", Some("/api//"))
        .route("/items", vec![("GET".to_string(), "list"), ("POST".to_string(), "add")])
        .route("cart/", vec![("GET".to_string(), "cart")])
        .route("none", vec![]);
    module.register_into(&mut app).unwrap();
    assert_eq!(resolve(&app, "GET", "api/items").unwrap(), RouteId(0));
    assert_eq!(resolve(&app, "POST", "/api/items").unwrap(), RouteId(1));
    assert_eq!(resolve(&app, "GET", "api/cart").unwrap(), RouteId(2));
    assert!(resolve(&app, "GET", "api/none").is_err());
    assert_eq!(app.registry().route(RouteId(1)).unwrap().path, "api/items");
    assert_eq!(app.registry().route(RouteId(1)).unwrap().openapi_tag, None);
    assert_eq!(
        handlers_of(&mut app, &[0, 1, 2, 3]),
        vec![Some("list"), Some("add"), Some("cart"), None]
    );
}

#[test]
fn modules_leave_earlier_handlers_in_place() {
    let mut app = App::new();
    assert_eq!(app.register_route("GET", "health", None, "first", None).unwrap(), RouteId(0));
    app.register_route_only("GET", "bare", None, None).unwrap();
    let mut domain: DomainModule<Handler> =
        DomainModule::new("orders").command("create", "c").query("get", "q");
    domain.register_into(&mut app).unwrap();
    assert_eq!(app.register_route("GET", "between", None, "second", None).unwrap(), RouteId(4));
    let mut http: HttpModule<Handler> =
        HttpModule::new("shop", None).route("items", vec![("GET".to_string(), "list")]);
    http.register_into(&mut app).unwrap();
    assert_eq!(
        handlers_of(&mut app, &[0, 1, 2, 3, 4, 5, 6]),
        vec![Some("first"), None, Some("c"), Some("q"), Some("second"), Some("list"), None]
    );
}

#[test]
fn snake_case_of_pascal_case_names() {
    assert_eq!(snake_case("CreateOrder"), "create_order");
    assert_eq!(snake_case("Order"), "order");
    assert_eq!(snake_case("order"), "order");
    assert_eq!(snake_case("HTTPServer"), "h_t_t_p_server");
    assert_eq!(snake_case("aB"), "a_b");
    assert_eq!(snake_case(""), "");
    assert_eq!(snake_case("\u{130}x"), "ix");
}

#[test]
fn type_names_lose_their_path() {
    assert_eq!(type_name_to_snake_case("orders::app::CreateOrder"), "create_order");
    assert_eq!(type_name_to_snake_case("GetOrder"), "get_order");
    assert_eq!(type_name_to_snake_case("a::b::"), "");
    assert_eq!(type_name_to_snake_case("a:B"), "a:_b");
    assert_eq!(type_name_to_snake_case("\u{130}x"), "i\u{307}x");
}

#[test]
fn template_markers_are_replaced_in_order() {
    assert_eq!(
        replace_template("mod CONTEXT; struct AGGREGATE; fn AGGREGATE_LOWER()", "orders", "Order", "order"),
        "mod orders; struct Order; fn Order_LOWER()"
    );
    assert_eq!(
        replace_template("IAGGREGATERepository AGGREGATERepositoryImpl", "c", "Order", "order"),
        "IOrderRepository OrderRepositoryImpl"
    );
    assert_eq!(replace_template("", "c", "A", "a"), "");
}

type Listener = Box<dyn Fn(serde_json::Value) -> Result<(), CoreError>>;

struct Created;
struct Cancelled;

#[test]
fn bus_calls_the_subscribers_of_a_type_in_order() {
    let seen = Rc::new(RefCell::new(Vec::<String>::new()));
    let mut bus: EventBus<Listener> = EventBus::new();
    for tag in ["a", "b"] {
        let seen = Rc::clone(&seen);
        bus.subscribe_event(
            TypeId::of::<Created>(),
            Box::new(move |v| {
                seen.borrow_mut().push(format!("{}{}", tag, v));
                Ok(())
            }),
        );
    }
    let other = Rc::clone(&seen);
    bus.subscribe_event(
        TypeId::of::<Cancelled>(),
        Box::new(move |_v| {
            other.borrow_mut().push("cancelled".to_string());
            Ok(())
        }),
    );
    let payload: serde_json::Value = serde_json::from_str("{\"id\":1}").unwrap();
    bus.publish_event(TypeId::of::<Created>(), &payload).unwrap();
    assert_eq!(*seen.borrow(), vec!["a{\"id\":1}".to_string(), "b{\"id\":1}".to_string()]);
    bus.publish_event(TypeId::of::<u8>(), &payload).unwrap();
    assert_eq!(seen.borrow().len(), 2);
}

#[test]
fn bus_stops_at_the_first_error() {
    let calls = Rc::new(RefCell::new(Vec::<u8>::new()));
    let mut bus: EventBus<Listener> = EventBus::new();
    for tag in [1u8, 2, 3] {
        let calls = Rc::clone(&calls);
        bus.subscribe_event(
            TypeId::of::<Created>(),
            Box::new(move |_v| {
                calls.borrow_mut().push(tag);
                if tag == 2 {
                    Err(CoreError::Validation("second".to_string()))
                } else {
                    Ok(())
                }
            }),
        );
    }
    let err = bus
        .publish_event(TypeId::of::<Created>(), &serde_json::Value::Null)
        .unwrap_err();
    match err {
        CoreError::Validation(text) => assert_eq!(text, "second"),
        other => panic!("expected the handler's error, got {:?}", other),
    }
    assert_eq!(*calls.borrow(), vec![1u8, 2]);
}
