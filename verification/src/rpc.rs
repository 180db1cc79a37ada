//! Remote procedure calls: the module that puts an RPC server on an
//! application, and the client that turns a call into the request a
//! transport sends.

use vstd::prelude::*;
use crate::application::Application;
use crate::discovery::ServiceDiscovery;
use crate::error::CoreError;
use crate::json::{
    json_from_slice, json_member, json_object, json_parsed, json_string, json_text,
    json_text_value, json_to_vec,
};
use crate::modules::keeps_others;
use crate::registry::{AppView, RpcMethod};
use crate::text::{debug_text, join3, quoted, trim_both, trimmed};

verus! {

/// Why a remote call failed.
#[derive(Debug)]
pub enum RpcError {
    /// The server answered with an error.
    Server { code: String, message: String },
    /// No URL is known for the service.
    ServiceUnavailable(String),
    /// The request did not get through, or the answer could not be read.
    Transport(String),
}

/// The mathematical value of an [`RpcError`].
pub ghost enum RpcErrorView {
    Server { code: Seq<char>, message: Seq<char> },
    ServiceUnavailable(Seq<char>),
    Transport(Seq<char>),
}

impl View for RpcError {
    type V = RpcErrorView;

    open spec fn view(&self) -> RpcErrorView {
        match self {
            RpcError::Server { code, message } => RpcErrorView::Server {
                code: code@,
                message: message@,
            },
            RpcError::ServiceUnavailable(s) => RpcErrorView::ServiceUnavailable(s@),
            RpcError::Transport(s) => RpcErrorView::Transport(s@),
        }
    }
}

/// The text of an error.
pub open spec fn rpc_message_of(e: RpcErrorView) -> Seq<char> {
    match e {
        RpcErrorView::Server { code, message } => "["@ + code + "] "@ + message,
        RpcErrorView::ServiceUnavailable(s) => "service unavailable: "@ + s,
        RpcErrorView::Transport(s) => "transport error: "@ + s,
    }
}

impl RpcError {
    /// The human-readable text of this error.
    pub fn message(&self) -> (r: String)
        ensures
            r@ == rpc_message_of(self@),
    {
        match self {
            RpcError::Server { code, message } => {
                let head = join3("[", code.as_str(), "] ");
                crate::text::join(head.as_str(), message.as_str())
            },
            RpcError::ServiceUnavailable(s) => crate::text::join("service unavailable: ", s.as_str()),
            RpcError::Transport(s) => crate::text::join("transport error: ", s.as_str()),
        }
    }
}

/// What a transport is asked to send.
#[derive(Debug)]
pub struct RpcRequest {
    pub url: String,
    pub method: String,
    pub body: Vec<u8>,
}

/// True when `doc` is the content of an RPC envelope for the given method
/// and parameters: an object whose member `method` is the string `method`
/// and whose member `params` has the content `params`.
pub open spec fn is_envelope(doc: Seq<u8>, method: Seq<char>, params: Seq<u8>) -> bool {
    &&& json_member(doc, "method"@) matches Some(m) && json_string(m) == Some(method)
    &&& json_member(doc, "params"@) == Some(params)
}

/// The RPC envelope `{"method": .., "params": ..}` as a JSON value.
pub fn envelope(method: &str, params: serde_json::Value) -> (r: serde_json::Value)
    ensures
        is_envelope(json_text(r), method@, json_text(params)),
{
    let name = json_text_value(method);
    let mut entries: Vec<(String, serde_json::Value)> = Vec::new();
    entries.push(("method".to_owned(), name));
    entries.push(("params".to_owned(), params));
    proof {
        reveal_strlit("method");
        reveal_strlit("params");
        assert("method"@[0] != "params"@[0]);
        assert(entries@[0].0@ == "method"@);
        assert(entries@[1].0@ == "params"@);
    }
    json_object(entries)
}

/// The request for a call, given the URLs that discovery found for the
/// service and what came of writing the envelope out: the first URL is
/// taken; without one the service is unavailable; an envelope that could
/// not be written out goes as an empty body.
pub fn plan_call(
    urls: Vec<String>,
    service_name: &str,
    method: &str,
    encoded: Result<Vec<u8>, String>,
) -> (r: Result<RpcRequest, RpcError>)
    ensures
        match r {
            Ok(request) => urls.len() > 0 && request.url@ == urls[0]@ && request.method@
                == method@ && request.body@ == (match encoded {
                Ok(bytes) => bytes@,
                Err(_) => Seq::empty(),
            }),
            Err(e) => urls.len() == 0 && e@ == RpcErrorView::ServiceUnavailable(
                "service "@ + quoted(service_name@) + " not found"@,
            ),
        },
{
    if urls.len() == 0 {
        let shown = debug_text(service_name);
        return Err(RpcError::ServiceUnavailable(join3("service ", shown.as_str(), " not found")));
    }
    let body = match encoded {
        Ok(bytes) => bytes,
        Err(_) => Vec::new(),
    };
    Ok(RpcRequest { url: urls[0].clone(), method: method.to_owned(), body })
}

/// The view of what reading an answer returned: a value stands by its
/// content.
pub open spec fn answer_view(r: Result<serde_json::Value, RpcError>) -> Result<
    Seq<u8>,
    RpcErrorView,
> {
    match r {
        Ok(v) => Ok(json_text(v)),
        Err(e) => Err(e@),
    }
}

/// The result of a call, read from the bytes the transport brought back:
/// the JSON value they hold, or a transport error with the parser's
/// description.
pub fn read_answer(bytes: &[u8]) -> (r: Result<serde_json::Value, RpcError>)
    ensures
        answer_view(r) == match json_parsed(bytes@) {
            Ok(text) => Ok::<Seq<u8>, RpcErrorView>(text),
            Err(m) => Err(RpcErrorView::Transport(m)),
        },
{
    match json_from_slice(bytes) {
        Ok(v) => Ok(v),
        Err(m) => Err(RpcError::Transport(m)),
    }
}

/// The payload a method handler of an RPC server hands its server: the
/// parameters written out.
pub fn method_payload(params: &serde_json::Value) -> (r: Vec<u8>)
    ensures
        r@ == json_text(*params),
{
    settle_payload(json_to_vec(params))
}

/// The payload that comes of an attempt to write parameters out: the bytes
/// that were written, or no bytes when the attempt failed.
pub open spec fn payload_of(encoded: Result<Vec<u8>, String>) -> Seq<u8> {
    match encoded {
        Ok(bytes) => bytes@,
        Err(_) => Seq::empty(),
    }
}

/// The payload a method handler hands its server, given what came of
/// writing the parameters out: the bytes written, or nothing when they
/// could not be written.
pub fn settle_payload(encoded: Result<Vec<u8>, String>) -> (r: Vec<u8>)
    ensures
        r@ == payload_of(encoded),
{
    match encoded {
        Ok(bytes) => bytes,
        Err(_) => Vec::new(),
    }
}

/// Method and payload of an envelope that reached a handler as a JSON
/// value: the string member `method`, or the empty text; the member
/// `params` written out, `null` when there is none.
pub fn open_envelope(body: &serde_json::Value) -> (r: (String, Vec<u8>))
    ensures
        r.0@ == (match json_member(json_text(*body), "method"@) {
            Some(m) => match json_string(m) {
                Some(s) => s,
                None => Seq::empty(),
            },
            None => Seq::empty(),
        }),
        r.1@ == (match json_member(json_text(*body), "params"@) {
            Some(p) => p,
            None => crate::json::null_text(),
        }),
{
    proof {
        reveal_strlit("");
        assert(""@ =~= Seq::<char>::empty());
    }
    let method = match crate::json::json_get(body, "method") {
        Some(m) => match crate::json::json_as_str(m) {
            Some(s) => s.to_owned(),
            None => "".to_owned(),
        },
        None => "".to_owned(),
    };
    let payload = match crate::json::json_get(body, "params") {
        Some(p) => method_payload(p),
        None => {
            let null = crate::json::json_null();
            method_payload(&null)
        },
    };
    (method, payload)
}

/// The view of what reading a server's reply returned.
pub open spec fn reply_view(r: Result<serde_json::Value, CoreError>) -> Result<
    Seq<u8>,
    crate::error::ErrorView,
> {
    match r {
        Ok(v) => Ok(json_text(v)),
        Err(e) => Err(e@),
    }
}

/// The value a method handler returns, read from the bytes its server
/// answered with: the JSON value they hold, or a validation error with the
/// parser's description.
pub fn read_reply(bytes: &[u8]) -> (r: Result<serde_json::Value, CoreError>)
    ensures
        reply_view(r) == match json_parsed(bytes@) {
            Ok(text) => Ok::<Seq<u8>, crate::error::ErrorView>(text),
            Err(m) => Err(crate::error::ErrorView::Validation(m)),
        },
{
    match json_from_slice(bytes) {
        Ok(v) => Ok(v),
        Err(m) => Err(CoreError::Validation(m)),
    }
}

/// Calls services by name: discovery finds the URL, the transport `T`
/// carries the request.
pub struct RpcClient<T> {
    discovery: Box<dyn ServiceDiscovery>,
    transport: T,
}

impl<T> RpcClient<T> {
    /// The transport of the client.
    pub closed spec fn transport_of(&self) -> T {
        self.transport
    }

    /// A client over the given discovery adapter and transport.
    pub fn new(discovery: Box<dyn ServiceDiscovery>, transport: T) -> (r: Self)
        ensures
            r.transport_of() == transport,
    {
        RpcClient { discovery, transport }
    }

    /// The transport, to send a request with.
    pub fn transport(&self) -> (r: &T)
        ensures
            *r == self.transport_of(),
    {
        &self.transport
    }

    /// Prepares a call: asks discovery for the URLs of the service, builds
    /// the envelope and writes it out. What discovery answers is the
    /// adapter's affair; [`plan_call`] says what is made of each answer.
    pub fn call(&self, service_name: &str, method: &str, params: serde_json::Value) -> (r: Result<
        RpcRequest,
        RpcError,
    >)
        ensures
            match r {
                Ok(request) => request.method@ == method@ && is_envelope(
                    request.body@,
                    method@,
                    json_text(params),
                ),
                Err(e) => e@ == RpcErrorView::ServiceUnavailable(
                    "service "@ + quoted(service_name@) + " not found"@,
                ),
            },
    {
        let urls = self.discovery.resolve(service_name);
        let body = envelope(method, params);
        plan_call(urls, service_name, method, json_to_vec(&body))
    }
}

/// The registry after the RPC methods `names` have been registered, in
/// order, each without a schema.
pub open spec fn with_methods<C>(app: AppView<C>, names: Seq<Seq<char>>) -> AppView<C>
    decreases names.len(),
{
    if names.len() == 0 {
        app
    } else {
        let before = with_methods(app, names.drop_last());
        AppView {
            next_id: (before.next_id + 1) as u32,
            rpc_methods: before.rpc_methods.insert(
                names.last(),
                RpcMethod { id: before.fresh(), schema: None },
            ),
            ..before
        }
    }
}

/// The registry after an RPC server has been put on it: with method names,
/// the RPC route and one method per name; without, one plain `POST` route
/// whose handler reads the envelope itself.
pub open spec fn with_server<C>(
    app: AppView<C>,
    path: Seq<char>,
    methods: Option<Seq<Seq<char>>>,
) -> AppView<C> {
    match methods {
        Some(names) => with_methods(
            AppView {
                rpc_route: Some(app.fresh()),
                ..app.registered("POST"@, trimmed(path, '/'), None, Some("RPC"@))
            },
            names,
        ),
        None => app.registered("POST"@, path, None, None),
    }
}

/// The RPC building block of an application: a server (a path and a
/// handler `S`, with or without a list of method names) and a client (a
/// discovery adapter and a transport `T`).
pub struct RpcModule<S, T> {
    server_path: Option<String>,
    server_handler: Option<S>,
    server_methods: Option<Vec<String>>,
    client_discovery: Option<Box<dyn ServiceDiscovery>>,
    client_transport: Option<T>,
}

/// The mathematical value of an [`RpcModule`].
pub ghost struct RpcModuleView<S, T> {
    pub server_path: Option<Seq<char>>,
    pub server_handler: Option<S>,
    pub server_methods: Option<Seq<Seq<char>>>,
    pub client_discovery: Option<Box<dyn ServiceDiscovery>>,
    pub client_transport: Option<T>,
}

impl<S, T> RpcModuleView<S, T> {
    /// How many handles registering the module takes.
    pub open spec fn handles_needed(self) -> nat {
        match self.server_methods {
            Some(names) => names.len() + 1,
            None => 1,
        }
    }

    /// True when the module has a server to register: a path and a handler.
    pub open spec fn has_server(self) -> bool {
        self.server_path is Some && self.server_handler is Some
    }
}

impl<S, T> View for RpcModule<S, T> {
    type V = RpcModuleView<S, T>;

    closed spec fn view(&self) -> RpcModuleView<S, T> {
        RpcModuleView {
            server_path: match self.server_path {
                Some(p) => Some(p@),
                None => None,
            },
            server_handler: self.server_handler,
            server_methods: match self.server_methods {
                Some(names) => Some(names.deep_view()),
                None => None,
            },
            client_discovery: self.client_discovery,
            client_transport: self.client_transport,
        }
    }
}

impl<S, T> RpcModule<S, T> {
    /// A module with neither server nor client.
    pub fn new() -> (r: Self)
        ensures
            r@ == (RpcModuleView::<S, T> {
                server_path: None,
                server_handler: None,
                server_methods: None,
                client_discovery: None,
                client_transport: None,
            }),
    {
        RpcModule {
            server_path: None,
            server_handler: None,
            server_methods: None,
            client_discovery: None,
            client_transport: None,
        }
    }

    /// True when the module has a server to register.
    pub fn has_server(&self) -> (r: bool)
        ensures
            r == self@.has_server(),
    {
        self.server_path.is_some() && self.server_handler.is_some()
    }

    /// How many handles registering the module takes, when it has a server:
    /// one for the route and one for each method name.
    pub fn handles_needed(&self) -> (n: u128)
        ensures
            n == self@.handles_needed(),
    {
        match &self.server_methods {
            Some(names) => {
                let count: u128 = names.len() as u128;
                count + 1
            },
            None => 1,
        }
    }

    /// Sets the route of incoming calls and the handler that answers them.
    /// The path loses its leading and trailing slashes.
    pub fn server(self, path: &str, handler: S) -> (r: Self)
        ensures
            r@ == (RpcModuleView {
                server_path: Some(trimmed(path@, '/')),
                server_handler: Some(handler),
                ..self@
            }),
    {
        RpcModule {
            server_path: Some(trim_both(path, '/').to_owned()),
            server_handler: Some(handler),
            server_methods: self.server_methods,
            client_discovery: self.client_discovery,
            client_transport: self.client_transport,
        }
    }

    /// Sets the names of the methods the server registers with the
    /// registry. Without them the server takes one route and its handler
    /// reads the method from the body.
    pub fn methods(self, names: &[&str]) -> (r: Self)
        ensures
            r@ == (RpcModuleView {
                server_methods: Some(Seq::new(names@.len(), |i: int| names@[i]@)),
                ..self@
            }),
    {
        let mut owned: Vec<String> = Vec::new();
        let mut i: usize = 0;
        while i < names.len()
            invariant
                i <= names.len(),
                owned.len() == i,
                forall|j: int| 0 <= j < i ==> owned@[j]@ == names@[j]@,
            decreases names.len() - i,
        {
            owned.push(names[i].to_owned());
            i += 1;
        }
        proof {
            assert(owned.deep_view() =~= Seq::new(names@.len(), |i: int| names@[i]@));
        }
        RpcModule {
            server_path: self.server_path,
            server_handler: self.server_handler,
            server_methods: Some(owned),
            client_discovery: self.client_discovery,
            client_transport: self.client_transport,
        }
    }

    /// Sets the discovery adapter and the transport of the client.
    pub fn client(self, discovery: Box<dyn ServiceDiscovery>, transport: T) -> (r: Self)
        ensures
            r@ == (RpcModuleView {
                client_discovery: Some(discovery),
                client_transport: Some(transport),
                ..self@
            }),
    {
        RpcModule {
            server_path: self.server_path,
            server_handler: self.server_handler,
            server_methods: self.server_methods,
            client_discovery: Some(discovery),
            client_transport: Some(transport),
        }
    }

    /// Takes the client out of the module: a client when both the discovery
    /// adapter and the transport were set, nothing otherwise. Either way the
    /// module keeps neither.
    pub fn take_client(&mut self) -> (r: Option<RpcClient<T>>)
        ensures
            final(self)@ == (RpcModuleView {
                client_discovery: None,
                client_transport: None,
                ..old(self)@
            }),
            match r {
                Some(c) => old(self)@.client_discovery is Some && old(self)@.client_transport
                    == Some(c.transport_of()),
                None => old(self)@.client_discovery is None || old(self)@.client_transport
                    is None,
            },
    {
        let mut discovery: Option<Box<dyn ServiceDiscovery>> = None;
        std::mem::swap(&mut self.client_discovery, &mut discovery);
        let mut transport: Option<T> = None;
        std::mem::swap(&mut self.client_transport, &mut transport);
        match (discovery, transport) {
            (Some(d), Some(t)) => Some(RpcClient::new(d, t)),
            _ => None,
        }
    }
}

/// What a handler made for an RPC server answers to.
#[derive(Debug)]
pub enum RpcBinding {
    /// The method with this name; the handler gets the parameters.
    Method(String),
    /// The whole route; the handler reads method and parameters from the
    /// envelope itself.
    Route,
}

/// True when `handler` is what `bind` makes for the method `name`.
pub open spec fn bound_to<H, B: Fn(RpcBinding) -> H>(bind: B, name: Seq<char>, handler: H) -> bool {
    exists|s: String| s@ == name && #[trigger] bind.ensures((RpcBinding::Method(s),), handler)
}

/// True when the handler table holds, under the handle `first + j`, what
/// `bind` makes for the method number `j` of `names`.
pub open spec fn method_bound<H, B: Fn(RpcBinding) -> H>(
    handlers: Map<u32, H>,
    bind: B,
    names: Seq<Seq<char>>,
    first: int,
    j: int,
) -> bool {
    handlers.contains_key((first + j) as u32) && bound_to(
        bind,
        names[j],
        handlers[(first + j) as u32],
    )
}

impl<S, T> RpcModule<S, T> {
    /// Puts the module on an application. A server (path and handler both
    /// set) becomes, with method names, the RPC route and one registered
    /// method per name, and without them one plain `POST` route. `share`
    /// turns the server's handler into the function `bind`, which makes the
    /// application's handler for each method, or for the whole route. The
    /// client, if discovery adapter and transport are both set, is handed
    /// back for the caller to keep. The module is left empty of all that
    /// was used.
    pub fn register_into<H, M, C, E, Sh: FnOnce(S) -> B, B: Fn(RpcBinding) -> H>(
        &mut self,
        app: &mut Application<H, M, C, E>,
        share: Sh,
    ) -> (r: Result<Option<RpcClient<T>>, CoreError>)
        requires
            forall|s: S| share.requires((s,)),
            forall|s: S, b: B, binding: RpcBinding| #[trigger]
                share.ensures((s,), b) ==> #[trigger] b.requires((binding,)),
            old(self)@.has_server() ==> old(app)@.core.next_id + old(self)@.handles_needed()
                <= u32::MAX,
        ensures
            r matches Ok(client) && match client {
                Some(c) => old(self)@.client_discovery is Some && old(self)@.client_transport
                    == Some(c.transport_of()),
                None => old(self)@.client_discovery is None || old(self)@.client_transport
                    is None,
            },
            final(self)@ == (RpcModuleView::<S, T> {
                server_path: None,
                server_handler: None,
                server_methods: if old(self)@.has_server() {
                    None
                } else {
                    old(self)@.server_methods
                },
                client_discovery: None,
                client_transport: None,
            }),
            !old(self)@.has_server() ==> final(app)@ == old(app)@,
            old(self)@.has_server() ==> {
                &&& final(app)@.core == with_server(
                    old(app)@.core,
                    old(self)@.server_path.unwrap(),
                    old(self)@.server_methods,
                )
                &&& final(app)@.installed == old(app)@.installed
                &&& final(app)@.middlewares == old(app)@.middlewares
                &&& final(app)@.external == old(app)@.external
                &&& match old(self)@.server_methods {
                    Some(names) => keeps_others(
                        old(app)@.handlers,
                        final(app)@.handlers,
                        old(app)@.core.next_id + 1,
                        names.len(),
                    ),
                    None => keeps_others(
                        old(app)@.handlers,
                        final(app)@.handlers,
                        old(app)@.core.next_id as int,
                        1,
                    ),
                }
                &&& exists|bind: B| #[trigger]
                    share.ensures((old(self)@.server_handler.unwrap(),), bind) && match old(
                        self,
                    )@.server_methods {
                        Some(names) => forall|i: int|
                            0 <= i < names.len() ==> #[trigger] method_bound(
                                final(app)@.handlers,
                                bind,
                                names,
                                old(app)@.core.next_id + 1,
                                i,
                            ),
                        None => final(app)@.handlers.contains_key(old(app)@.core.next_id)
                            && bind.ensures(
                            (RpcBinding::Route,),
                            final(app)@.handlers[old(app)@.core.next_id],
                        ),
                    }
            },
    {
        let mut path: Option<String> = None;
        std::mem::swap(&mut self.server_path, &mut path);
        let mut handler: Option<S> = None;
        std::mem::swap(&mut self.server_handler, &mut handler);
        match (path, handler) {
            (Some(path), Some(handler)) => {
                let ghost shared = handler;
                let bind = share(handler);
                let mut methods: Option<Vec<String>> = None;
                std::mem::swap(&mut self.server_methods, &mut methods);
                match methods {
                    Some(names) => {
                        let _ = app.add_rpc_route(path.as_str());
                        let ghost base = app@.core;
                        let ghost start = old(app)@.core.next_id;
                        let mut i: usize = 0;
                        while i < names.len()
                            invariant
                                i <= names.len(),
                                start + 1 + names.len() <= u32::MAX,
                                base.next_id == start + 1,
                                app@.core == with_methods(
                                    base,
                                    names.deep_view().subrange(0, i as int),
                                ),
                                app@.core.next_id == start + 1 + i,
                                app@.installed == old(app)@.installed,
                                app@.middlewares == old(app)@.middlewares,
                                app@.external == old(app)@.external,
                                keeps_others(
                                    old(app)@.handlers,
                                    app@.handlers,
                                    start + 1,
                                    i as nat,
                                ),
                                forall|binding: RpcBinding| bind.requires((binding,)),
                                forall|j: int|
                                    0 <= j < i ==> #[trigger] method_bound(
                                        app@.handlers,
                                        bind,
                                        names.deep_view(),
                                        start + 1,
                                        j,
                                    ),
                            decreases names.len() - i,
                        {
                            let ghost before = app@;
                            let name = names[i].clone();
                            let made = bind(RpcBinding::Method(name));
                            let _ = app.add_rpc_method(names[i].as_str(), None, made);
                            proof {
                                let all = names.deep_view();
                                let upto = all.subrange(0, i + 1);
                                assert(upto.drop_last() == all.subrange(0, i as int));
                                assert(upto.last() == names@[i as int]@);
                                assert(bound_to(bind, all[i as int], made));
                                assert(app@.handlers == before.handlers.insert(
                                    before.core.next_id,
                                    made,
                                ));
                                assert(keeps_others(
                                    old(app)@.handlers,
                                    before.handlers,
                                    start + 1,
                                    i as nat,
                                ));
                                let earlier = old(app)@.handlers;
                                let now = app@.handlers;
                                assert forall|n: u32| !(start + 1 <= n < start + 1 + (i + 1)) implies (
                                #[trigger] now.contains_key(n) <==> earlier.contains_key(n)) && (
                                earlier.contains_key(n) ==> now[n] == earlier[n]) by {
                                    assert(n != before.core.next_id);
                                    assert(before.handlers.contains_key(n) <==> earlier.contains_key(n));
                                }
                                assert forall|j: int| 0 <= j < i + 1 implies #[trigger] method_bound(
                                    app@.handlers,
                                    bind,
                                    all,
                                    start + 1,
                                    j,
                                ) by {
                                    if j < i {
                                        assert(method_bound(before.handlers, bind, all, start + 1, j));
                                    }
                                }
                            }
                            i += 1;
                        }
                        proof {
                            let all = names.deep_view();
                            assert(all.subrange(0, names.len() as int) == all);
                        }
                    },
                    None => {
                        let made = bind(RpcBinding::Route);
                        let _ = app.register_route("POST", path.as_str(), None, made, None);
                    },
                }
                proof {
                    assert(share.ensures((shared,), bind));
                }
            },
            _ => {},
        }
        Ok(self.take_client())
    }
}

} // verus!
