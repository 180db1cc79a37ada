//! The route registry: registered routes with their schema and tag, the RPC
//! method table, the event subscriptions, the handle counter and the slot for
//! the one dispatch function.

use std::collections::HashMap;
use vstd::prelude::*;
use vstd::hash_map::StringHashMap;
use vstd::slice::slice_to_vec;
use crate::error::{CoreError, ErrorView};
use crate::json::{
    json_as_str, json_from_slice, json_get, json_member, json_null, json_parsed, json_string,
    json_to_vec, null_text,
};
use crate::request::{RequestContext, RequestView};
use crate::router::{route_key, RouteId, Router};
use crate::text::{
    debug_text, decimal, decimal_text, join, join3, lowercased, quoted, skip_leading, trim_both,
    trimmed,
};

verus! {

/// A registered route. Made at registration and not changed afterwards.
#[derive(Clone, Debug)]
pub struct Route {
    pub id: RouteId,
    pub method: String,
    pub path: String,
    pub request_schema: Option<serde_json::Value>,
    pub openapi_tag: Option<String>,
}

/// The mathematical value of a [`Route`].
pub ghost struct RouteView {
    pub id: RouteId,
    pub method: Seq<char>,
    pub path: Seq<char>,
    pub request_schema: Option<serde_json::Value>,
    pub openapi_tag: Option<Seq<char>>,
}

impl View for Route {
    type V = RouteView;

    open spec fn view(&self) -> RouteView {
        RouteView {
            id: self.id,
            method: self.method@,
            path: self.path@,
            request_schema: self.request_schema,
            openapi_tag: match self.openapi_tag {
                Some(t) => Some(t@),
                None => None,
            },
        }
    }
}

/// A named RPC method: the handle of its handler and the schema of its
/// parameters, if it has one.
pub struct RpcMethod {
    pub id: RouteId,
    pub schema: Option<serde_json::Value>,
}

/// The content of the document an RPC body stands for: what the body parses
/// to, or `null` when it does not parse.
pub open spec fn envelope_doc(body: Seq<u8>) -> Seq<u8> {
    match json_parsed(body) {
        Ok(text) => text,
        Err(_) => null_text(),
    }
}

/// The method an RPC body names: its string member `method`, or the empty
/// text when there is none.
pub open spec fn envelope_method(body: Seq<u8>) -> Seq<char> {
    match json_member(envelope_doc(body), "method"@) {
        Some(m) => match json_string(m) {
            Some(s) => s,
            None => Seq::empty(),
        },
        None => Seq::empty(),
    }
}

/// The parameters an RPC body carries: the content of its member `params`,
/// or `null` when there is none.
pub open spec fn envelope_params(body: Seq<u8>) -> Seq<u8> {
    match json_member(envelope_doc(body), "params"@) {
        Some(p) => p,
        None => null_text(),
    }
}

/// The view of what a schema validator answered: the bytes it accepted, or
/// the error it refused with.
pub open spec fn verdict_view(verdict: Result<Vec<u8>, CoreError>) -> Result<Seq<u8>, ErrorView> {
    match verdict {
        Ok(bytes) => Ok(bytes@),
        Err(e) => Err(e@),
    }
}

/// True when `verdict` is what the validator answered when it was handed
/// `bytes` and `schema`.
pub open spec fn asked<V: Fn(&[u8], &serde_json::Value) -> Result<Vec<u8>, CoreError>>(
    validate: V,
    bytes: Seq<u8>,
    schema: serde_json::Value,
    verdict: Result<Vec<u8>, CoreError>,
) -> bool {
    exists|handed: &[u8]| handed@ == bytes && #[trigger] validate.ensures((handed, &schema), verdict)
}

/// True when `outcome` is what a request comes to that was checked by the
/// validator: the validator was handed `bytes` and `schema`, and its
/// verdict settled the request.
pub open spec fn checked_by<V: Fn(&[u8], &serde_json::Value) -> Result<Vec<u8>, CoreError>>(
    validate: V,
    id: RouteId,
    bytes: Seq<u8>,
    schema: serde_json::Value,
    outcome: Result<(RouteId, Seq<u8>), ErrorView>,
) -> bool {
    exists|verdict: Result<Vec<u8>, CoreError>|
        #[trigger] asked(validate, bytes, schema, verdict) && outcome == settled(
            id,
            verdict_view(verdict),
        )
}

/// How far the registry alone resolves a request.
pub ghost enum Resolution {
    /// The request is refused with this error.
    Refused(ErrorView),
    /// The request goes to this handler with this payload; no schema
    /// applies.
    Direct { id: RouteId, payload: Seq<u8> },
    /// A schema applies: the validator is handed these bytes and this
    /// schema, and its verdict decides.
    Check { id: RouteId, bytes: Seq<u8>, schema: serde_json::Value },
}

/// The resolution of a request that reached a handler whose schema, if it
/// has one, applies to `bytes`.
pub open spec fn under_schema(
    id: RouteId,
    schema: Option<serde_json::Value>,
    bytes: Seq<u8>,
) -> Resolution {
    match schema {
        Some(s) => Resolution::Check { id, bytes, schema: s },
        None => Resolution::Direct { id, payload: bytes },
    }
}

/// What a checked request comes to: the bytes the validator accepted are
/// the payload, byte for byte; its refusal is the error.
pub open spec fn settled(id: RouteId, verdict: Result<Seq<u8>, ErrorView>) -> Result<
    (RouteId, Seq<u8>),
    ErrorView,
> {
    match verdict {
        Ok(bytes) => Ok((id, bytes)),
        Err(e) => Err(e),
    }
}

/// The mathematical value of an [`App`].
pub ghost struct AppView<C> {
    pub table: Map<(Seq<char>, Seq<char>), RouteId>,
    pub routes: Map<u32, RouteView>,
    pub next_id: u32,
    pub callback: Option<C>,
    pub rpc_route: Option<RouteId>,
    pub rpc_methods: Map<Seq<char>, RpcMethod>,
    pub subscriptions: Map<Seq<char>, Seq<RouteId>>,
}

impl<C> AppView<C> {
    /// The registry with nothing registered and no dispatch function.
    pub open spec fn empty() -> Self {
        AppView {
            table: Map::empty(),
            routes: Map::empty(),
            next_id: 0,
            callback: None,
            rpc_route: None,
            rpc_methods: Map::empty(),
            subscriptions: Map::empty(),
        }
    }

    /// Every handle in the route table has its route, the RPC route is a
    /// registered route, and every handle given out so far is below the
    /// counter.
    pub open spec fn wf(self) -> bool {
        &&& forall|k: (Seq<char>, Seq<char>)| #[trigger]
            self.table.contains_key(k) ==> self.routes.contains_key(self.table[k].0)
        &&& forall|n: u32| #[trigger]
            self.routes.contains_key(n) ==> n < self.next_id && self.routes[n].id == RouteId(n)
        &&& self.rpc_route matches Some(id) ==> self.routes.contains_key(id.0)
        &&& forall|name: Seq<char>| #[trigger]
            self.rpc_methods.contains_key(name) ==> self.rpc_methods[name].id.0 < self.next_id
        &&& forall|e: Seq<char>, i: int|
            self.subscriptions.contains_key(e) && 0 <= i < self.subscriptions[e].len()
                ==> (#[trigger] self.subscriptions[e][i]).0 < self.next_id
    }

    /// The handle the next registration gets.
    pub open spec fn fresh(self) -> RouteId {
        RouteId(self.next_id)
    }

    /// The registry after a route has been registered.
    pub open spec fn registered(
        self,
        method: Seq<char>,
        path: Seq<char>,
        request_schema: Option<serde_json::Value>,
        openapi_tag: Option<Seq<char>>,
    ) -> Self {
        AppView {
            table: self.table.insert(route_key(method, path), self.fresh()),
            routes: self.routes.insert(
                self.next_id,
                RouteView {
                    id: self.fresh(),
                    method,
                    path: trimmed(path, '/'),
                    request_schema,
                    openapi_tag,
                },
            ),
            next_id: (self.next_id + 1) as u32,
            ..self
        }
    }

    /// The handles subscribed to an event type, in subscription order.
    pub open spec fn subscribers(self, event_type: Seq<char>) -> Seq<RouteId> {
        if self.subscriptions.contains_key(event_type) {
            self.subscriptions[event_type]
        } else {
            Seq::empty()
        }
    }

    /// How far the registry alone resolves a request: an unknown route or
    /// RPC method is refused; a route or method without a schema gets the
    /// body, or the parameters, as they are; with a schema the validator
    /// is asked.
    pub open spec fn resolution(self, request: RequestView) -> Resolution {
        let key = route_key(request.method, request.path);
        if !self.table.contains_key(key) {
            Resolution::Refused(ErrorView::NotFound(request.method + " "@ + request.path))
        } else if self.rpc_route == Some(self.table[key]) {
            let name = envelope_method(request.body);
            if !self.rpc_methods.contains_key(name) {
                Resolution::Refused(ErrorView::NotFound("rpc method "@ + quoted(name)))
            } else {
                under_schema(
                    self.rpc_methods[name].id,
                    self.rpc_methods[name].schema,
                    envelope_params(request.body),
                )
            }
        } else if !self.routes.contains_key(self.table[key].0) {
            Resolution::Refused(
                ErrorView::NotFound(
                    "route_id RouteId("@ + decimal(self.table[key].0 as nat) + ")"@,
                ),
            )
        } else {
            under_schema(
                self.table[key],
                self.routes[self.table[key].0].request_schema,
                request.body,
            )
        }
    }

    /// True when `outcome` is what resolving a request comes to with the
    /// given validator: the handler and payload, or the error.
    pub open spec fn resolves<V: Fn(&[u8], &serde_json::Value) -> Result<Vec<u8>, CoreError>>(
        self,
        validate: V,
        request: RequestView,
        outcome: Result<(RouteId, Seq<u8>), ErrorView>,
    ) -> bool {
        match self.resolution(request) {
            Resolution::Refused(e) => outcome == Err::<(RouteId, Seq<u8>), ErrorView>(e),
            Resolution::Direct { id, payload } => outcome == Ok::<(RouteId, Seq<u8>), ErrorView>(
                (id, payload),
            ),
            Resolution::Check { id, bytes, schema } => checked_by(
                validate,
                id,
                bytes,
                schema,
                outcome,
            ),
        }
    }

    /// True when `outcome` is what a request comes to before the dispatch
    /// function is called: what it resolves to, except that a request that
    /// resolves while the slot is empty is refused.
    pub open spec fn handles<V: Fn(&[u8], &serde_json::Value) -> Result<Vec<u8>, CoreError>>(
        self,
        validate: V,
        request: RequestView,
        outcome: Result<(RouteId, Seq<u8>), ErrorView>,
    ) -> bool {
        exists|resolved: Result<(RouteId, Seq<u8>), ErrorView>|
            #[trigger] self.resolves(validate, request, resolved) && outcome == (if resolved
                is Ok && self.callback is None {
                Err::<(RouteId, Seq<u8>), ErrorView>(no_callback())
            } else {
                resolved
            })
    }
}

/// The view of what resolving a request returned.
pub open spec fn hit_view(r: Result<(RouteId, Vec<u8>), CoreError>) -> Result<
    (RouteId, Seq<u8>),
    ErrorView,
> {
    match r {
        Ok(hit) => Ok((hit.0, hit.1@)),
        Err(e) => Err(e@),
    }
}

/// What a checked request comes to, given what the validator answered:
/// the bytes it accepted become the payload, unchanged; its refusal is the
/// error.
pub fn settle_validation(id: RouteId, verdict: Result<Vec<u8>, CoreError>) -> (r: Result<
    (RouteId, Vec<u8>),
    CoreError,
>)
    ensures
        hit_view(r) == settled(id, verdict_view(verdict)),
{
    match verdict {
        Ok(bytes) => Ok((id, bytes)),
        Err(e) => Err(e),
    }
}

/// Asks the validator about `bytes` under `schema` and settles the request
/// by its verdict.
fn check<V: Fn(&[u8], &serde_json::Value) -> Result<Vec<u8>, CoreError>>(
    validate: &V,
    id: RouteId,
    bytes: &[u8],
    schema: &serde_json::Value,
) -> (r: Result<(RouteId, Vec<u8>), CoreError>)
    requires
        forall|b: &[u8], s: &serde_json::Value| validate.requires((b, s)),
    ensures
        checked_by(*validate, id, bytes@, *schema, hit_view(r)),
{
    let verdict = validate(bytes, schema);
    proof {
        assert(asked(*validate, bytes@, *schema, verdict));
    }
    settle_validation(id, verdict)
}

/// A resolved request, ready for the dispatch function: the handle and the
/// payload to call it with, and the function itself.
pub struct Invocation<'a, C> {
    pub handler_id: RouteId,
    pub payload: Vec<u8>,
    pub callback: &'a C,
}

/// The error of a request that finds no dispatch function in the slot.
pub open spec fn no_callback() -> ErrorView {
    ErrorView::Validation("no callback set"@)
}

/// The registry: routes, RPC methods, event subscriptions, and the slot of
/// the dispatch function, whose type `C` the registry never looks into.
pub struct App<C> {
    router: Router,
    routes: HashMap<u32, Route>,
    next_route_id: u32,
    callback: Option<C>,
    rpc_route_id: Option<RouteId>,
    rpc_methods: StringHashMap<RpcMethod>,
    event_subscriptions: StringHashMap<Vec<RouteId>>,
}

impl<C> View for App<C> {
    type V = AppView<C>;

    closed spec fn view(&self) -> AppView<C> {
        AppView {
            table: self.router@,
            routes: Map::new(|n: u32| self.routes@.contains_key(n), |n: u32| self.routes@[n]@),
            next_id: self.next_route_id,
            callback: self.callback,
            rpc_route: self.rpc_route_id,
            rpc_methods: self.rpc_methods@,
            subscriptions: Map::new(
                |e: Seq<char>| self.event_subscriptions@.contains_key(e),
                |e: Seq<char>| self.event_subscriptions@[e]@,
            ),
        }
    }
}

impl<C> App<C> {
    /// The empty registry.
    pub fn new() -> (r: Self)
        ensures
            r@ == AppView::<C>::empty(),
            r@.wf(),
    {
        let r = App {
            router: Router::new(),
            routes: HashMap::new(),
            next_route_id: 0,
            callback: None,
            rpc_route_id: None,
            rpc_methods: StringHashMap::new(),
            event_subscriptions: StringHashMap::new(),
        };
        proof {
            assert(r@.routes =~= Map::<u32, RouteView>::empty());
            assert(r@.subscriptions =~= Map::<Seq<char>, Seq<RouteId>>::empty());
        }
        r
    }

    fn alloc_handler_id(&mut self) -> (id: RouteId)
        requires
            old(self)@.next_id < u32::MAX,
        ensures
            id == old(self)@.fresh(),
            final(self)@ == (AppView { next_id: (old(self)@.next_id + 1) as u32, ..old(self)@ }),
    {
        let id = RouteId(self.next_route_id);
        self.next_route_id = self.next_route_id + 1;
        id
    }

    /// Registers a route under `(method, path)` with an optional request
    /// schema and an optional tag, and gives it the next handle.
    pub fn register_route(
        &mut self,
        method: &str,
        path: &str,
        request_schema: Option<serde_json::Value>,
        openapi_tag: Option<&str>,
    ) -> (r: Result<RouteId, CoreError>)
        requires
            old(self)@.next_id < u32::MAX,
        ensures
            r matches Ok(id) && id == old(self)@.fresh(),
            final(self)@ == old(self)@.registered(
                method@,
                path@,
                request_schema,
                match openapi_tag {
                    Some(t) => Some(t@),
                    None => None,
                },
            ),
            old(self)@.wf() ==> final(self)@.wf(),
    {
        let id = self.alloc_handler_id();
        self.router.add(method, path, id);
        let tag = match openapi_tag {
            Some(t) => Some(t.to_owned()),
            None => None,
        };
        let route = Route {
            id,
            method: method.to_owned(),
            path: trim_both(path, '/').to_owned(),
            request_schema,
            openapi_tag: tag,
        };
        self.routes.insert(id.0, route);
        proof {
            let want = old(self)@.registered(
                method@,
                path@,
                request_schema,
                match openapi_tag {
                    Some(t) => Some(t@),
                    None => None,
                },
            );
            assert(self@.routes =~= want.routes);
            assert(self@.subscriptions =~= want.subscriptions);
            if old(self)@.wf() {
                law_registered_keeps_wf(
                    old(self)@,
                    method@,
                    path@,
                    request_schema,
                    match openapi_tag {
                        Some(t) => Some(t@),
                        None => None,
                    },
                );
            }
        }
        Ok(id)
    }

    /// Registers the command `name` of a context: `POST
    /// {context}/commands/{name}`, tagged with the context.
    pub fn add_command(
        &mut self,
        context: &str,
        name: &str,
        request_schema: Option<serde_json::Value>,
    ) -> (r: Result<RouteId, CoreError>)
        requires
            old(self)@.next_id < u32::MAX,
        ensures
            r matches Ok(id) && id == old(self)@.fresh(),
            final(self)@ == old(self)@.registered(
                "POST"@,
                trimmed(context@, '/') + "/commands/"@ + name@,
                request_schema,
                Some(trimmed(context@, '/')),
            ),
            old(self)@.wf() ==> final(self)@.wf(),
    {
        let context = trim_both(context, '/');
        let path = join3(context, "/commands/", name);
        self.register_route("POST", path.as_str(), request_schema, Some(context))
    }

    /// Registers the query `name` of a context: `GET
    /// {context}/queries/{name}`, tagged with the context.
    pub fn add_query(
        &mut self,
        context: &str,
        name: &str,
        request_schema: Option<serde_json::Value>,
    ) -> (r: Result<RouteId, CoreError>)
        requires
            old(self)@.next_id < u32::MAX,
        ensures
            r matches Ok(id) && id == old(self)@.fresh(),
            final(self)@ == old(self)@.registered(
                "GET"@,
                trimmed(context@, '/') + "/queries/"@ + name@,
                request_schema,
                Some(trimmed(context@, '/')),
            ),
            old(self)@.wf() ==> final(self)@.wf(),
    {
        let context = trim_both(context, '/');
        let path = join3(context, "/queries/", name);
        self.register_route("GET", path.as_str(), request_schema, Some(context))
    }

    /// Registers the one RPC route: a `POST` route at `path`, tagged `RPC`,
    /// whose requests are re-dispatched by the method their body names.
    pub fn add_rpc_route(&mut self, path: &str) -> (r: Result<(), CoreError>)
        requires
            old(self)@.next_id < u32::MAX,
        ensures
            r is Ok,
            final(self)@ == (AppView {
                rpc_route: Some(old(self)@.fresh()),
                ..old(self)@.registered("POST"@, trimmed(path@, '/'), None, Some("RPC"@))
            }),
            old(self)@.wf() ==> final(self)@.wf(),
    {
        proof {
            if old(self)@.wf() {
                law_registered_keeps_wf(
                    old(self)@,
                    "POST"@,
                    trimmed(path@, '/'),
                    None,
                    Some("RPC"@),
                );
            }
        }
        let path = trim_both(path, '/');
        match self.register_route("POST", path, None, Some("RPC")) {
            Ok(id) => {
                self.rpc_route_id = Some(id);
                Ok(())
            },
            Err(e) => Err(e),
        }
    }

    /// Registers an RPC method under its name and gives it the next handle.
    /// The method does not occupy the route table.
    pub fn add_rpc_method(&mut self, name: &str, request_schema: Option<serde_json::Value>) -> (r:
        Result<RouteId, CoreError>)
        requires
            old(self)@.next_id < u32::MAX,
        ensures
            r matches Ok(id) && id == old(self)@.fresh(),
            final(self)@ == (AppView {
                next_id: (old(self)@.next_id + 1) as u32,
                rpc_methods: old(self)@.rpc_methods.insert(
                    name@,
                    RpcMethod { id: old(self)@.fresh(), schema: request_schema },
                ),
                ..old(self)@
            }),
            old(self)@.wf() ==> final(self)@.wf(),
    {
        let id = self.alloc_handler_id();
        self.rpc_methods.insert(name.to_owned(), RpcMethod { id, schema: request_schema });
        proof {
            assert(self@.routes =~= old(self)@.routes);
            assert(self@.subscriptions =~= old(self)@.subscriptions);
            if old(self)@.wf() {
                law_rpc_method_keeps_wf(
                    old(self)@,
                    name@,
                    RpcMethod { id, schema: request_schema },
                );
            }
        }
        Ok(id)
    }

    /// Subscribes a new handle to an event type, behind the handles already
    /// subscribed to it.
    pub fn subscribe_event(&mut self, event_type_id: &str) -> (id: RouteId)
        requires
            old(self)@.next_id < u32::MAX,
        ensures
            id == old(self)@.fresh(),
            final(self)@ == (AppView {
                next_id: (old(self)@.next_id + 1) as u32,
                subscriptions: old(self)@.subscriptions.insert(
                    event_type_id@,
                    old(self)@.subscribers(event_type_id@).push(id),
                ),
                ..old(self)@
            }),
            old(self)@.wf() ==> final(self)@.wf(),
    {
        let id = self.alloc_handler_id();
        let mut ids = self.subscribers(event_type_id);
        ids.push(id);
        self.event_subscriptions.insert(event_type_id.to_owned(), ids);
        proof {
            assert(self@.routes =~= old(self)@.routes);
            assert(self@.subscriptions =~= old(self)@.subscriptions.insert(
                event_type_id@,
                old(self)@.subscribers(event_type_id@).push(id),
            ));
            if old(self)@.wf() {
                law_subscription_keeps_wf(old(self)@, event_type_id@);
            }
        }
        id
    }

    /// The handles subscribed to an event type, in subscription order.
    pub fn subscribers(&self, event_type_id: &str) -> (ids: Vec<RouteId>)
        ensures
            ids@ == self@.subscribers(event_type_id@),
    {
        let mut ids: Vec<RouteId> = Vec::new();
        match self.event_subscriptions.get(event_type_id) {
            None => {},
            Some(known) => {
                let mut i: usize = 0;
                while i < known.len()
                    invariant
                        i <= known.len(),
                        ids@ == known@.subrange(0, i as int),
                    decreases known.len() - i,
                {
                    ids.push(known[i]);
                    i += 1;
                }
                proof {
                    assert(known@.subrange(0, known.len() as int) == known@);
                }
            },
        }
        ids
    }

    /// The handle the next registration gets.
    pub fn next_route_id(&self) -> (r: u32)
        ensures
            r == self@.next_id,
    {
        self.next_route_id
    }

    /// Puts a dispatch function into the slot.
    pub fn set_callback(&mut self, cb: C)
        ensures
            final(self)@ == (AppView { callback: Some(cb), ..old(self)@ }),
            old(self)@.wf() ==> final(self)@.wf(),
    {
        self.callback = Some(cb);
        proof {
            assert(self@.routes =~= old(self)@.routes);
            assert(self@.subscriptions =~= old(self)@.subscriptions);
        }
    }

    /// The dispatch function in the slot, if one has been put there.
    pub fn get_callback(&self) -> (r: Option<&C>)
        ensures
            match r {
                Some(cb) => self@.callback == Some(*cb),
                None => self@.callback is None,
            },
    {
        self.callback.as_ref()
    }

    /// The route registered under a handle.
    pub fn route(&self, id: RouteId) -> (r: Option<&Route>)
        ensures
            match r {
                Some(route) => self@.routes.contains_key(id.0) && self@.routes[id.0] == route@,
                None => !self@.routes.contains_key(id.0),
            },
    {
        self.routes.get(&id.0)
    }

    /// Resolves a request to the handle of its handler and the payload to
    /// hand it. Where the route, or the RPC method, carries a schema, the
    /// validator decides: it is handed the body (for an RPC method the
    /// parameters) and the schema, the bytes it accepts are the payload,
    /// and its refusal is the error.
    pub fn match_route_and_validate<V: Fn(&[u8], &serde_json::Value) -> Result<Vec<u8>, CoreError>>(
        &self,
        context: &RequestContext,
        validate: &V,
    ) -> (r: Result<(RouteId, Vec<u8>), CoreError>)
        requires
            forall|b: &[u8], s: &serde_json::Value| validate.requires((b, s)),
        ensures
            self@.resolves(*validate, context@, hit_view(r)),
    {
        let method = context.method.as_str();
        let path = context.path.as_str();
        let route_id = match self.router.match_route(method, path) {
            Some(id) => id,
            None => {
                return Err(CoreError::NotFound(join3(method, " ", path)));
            },
        };
        let is_rpc = match self.rpc_route_id {
            Some(id) => id == route_id,
            None => false,
        };
        if is_rpc {
            let null = json_null();
            let parsed = json_from_slice(context.body.as_slice());
            let doc = match &parsed {
                Ok(v) => v,
                Err(_) => &null,
            };
            proof {
                reveal_strlit("");
            }
            let name: &str = match json_get(doc, "method") {
                Some(m) => match json_as_str(m) {
                    Some(s) => s,
                    None => "",
                },
                None => "",
            };
            assert(name@ == envelope_method(context@.body));
            let entry = match self.rpc_methods.get(name) {
                Some(e) => e,
                None => {
                    let shown = debug_text(name);
                    return Err(CoreError::NotFound(join("rpc method ", shown.as_str())));
                },
            };
            let encoded = match json_get(doc, "params") {
                Some(p) => json_to_vec(p),
                None => json_to_vec(&null),
            };
            let params = match encoded {
                Ok(bytes) => bytes,
                Err(_) => Vec::new(),
            };
            proof {
                assert(params@ == envelope_params(context@.body));
                assert(self@.resolution(context@) == under_schema(
                    entry.id,
                    entry.schema,
                    params@,
                ));
            }
            match &entry.schema {
                Some(schema) => {
                    let handed = params.as_slice();
                    let r = check(validate, entry.id, handed, schema);
                    proof {
                        assert(self@.resolution(context@) == (Resolution::Check {
                            id: entry.id,
                            bytes: params@,
                            schema: *schema,
                        }));
                        assert(checked_by(*validate, entry.id, params@, *schema, hit_view(r)));
                    }
                    r
                },
                None => Ok((entry.id, params)),
            }
        } else {
            let route = match self.routes.get(&route_id.0) {
                Some(route) => route,
                None => {
                    let number = decimal_text(route_id.0);
                    return Err(
                        CoreError::NotFound(join3("route_id RouteId(", number.as_str(), ")")),
                    );
                },
            };
            proof {
                assert(self@.resolution(context@) == under_schema(
                    route_id,
                    route.request_schema,
                    context@.body,
                ));
            }
            match &route.request_schema {
                Some(schema) => {
                    let handed = context.body.as_slice();
                    let r = check(validate, route_id, handed, schema);
                    proof {
                        assert(self@.resolution(context@) == (Resolution::Check {
                            id: route_id,
                            bytes: context@.body,
                            schema: *schema,
                        }));
                        assert(checked_by(
                            *validate,
                            route_id,
                            context@.body,
                            *schema,
                            hit_view(r),
                        ));
                    }
                    r
                },
                None => Ok((route_id, slice_to_vec(context.body.as_slice()))),
            }
        }
    }
}

impl<C> App<C> {
    /// Resolves a request and pairs it with the dispatch function. Calling
    /// the function is left to the caller. A request that does not resolve
    /// fails as [`App::match_route_and_validate`] says; one that resolves
    /// while the slot is empty fails with a validation error.
    pub fn handle_request<'a, V: Fn(&[u8], &serde_json::Value) -> Result<Vec<u8>, CoreError>>(
        &'a self,
        context: &RequestContext,
        validate: &V,
    ) -> (r: Result<Invocation<'a, C>, CoreError>)
        requires
            forall|b: &[u8], s: &serde_json::Value| validate.requires((b, s)),
        ensures
            self@.handles(
                *validate,
                context@,
                match r {
                    Ok(call) => Ok((call.handler_id, call.payload@)),
                    Err(e) => Err(e@),
                },
            ),
            r matches Ok(call) ==> self@.callback == Some(*call.callback),
    {
        let (handler_id, payload) = match self.match_route_and_validate(context, validate) {
            Ok(hit) => hit,
            Err(e) => {
                return Err(e);
            },
        };
        match self.get_callback() {
            Some(callback) => Ok(Invocation { handler_id, payload, callback }),
            None => Err(CoreError::Validation("no callback set".to_owned())),
        }
    }
}

/// One operation of the specification document: a path with its leading
/// slash, a method in lower case, the tag and the request schema of the
/// route it describes.
pub ghost struct OperationView {
    pub path: Seq<char>,
    pub method: Seq<char>,
    pub tag: Option<Seq<char>>,
    pub request_schema: Option<serde_json::Value>,
}

/// The operation that describes a route.
pub open spec fn operation_of(route: RouteView) -> OperationView {
    OperationView {
        path: "/"@ + skip_leading(route.path, '/'),
        method: lowercased(route.method),
        tag: route.openapi_tag,
        request_schema: route.request_schema,
    }
}

impl<C> Default for App<C> {
    fn default() -> (r: Self)
        ensures
            r@ == AppView::<C>::empty(),
    {
        App::new()
    }
}

/// A request whose `(method, path)` was never registered is refused with
/// `NotFound`, whatever its body and whatever the validator.
pub proof fn law_unregistered_not_found<
    C,
    V: Fn(&[u8], &serde_json::Value) -> Result<Vec<u8>, CoreError>,
>(app: AppView<C>, validate: V, request: RequestView, outcome: Result<(RouteId, Seq<u8>), ErrorView>)
    requires
        !app.table.contains_key(route_key(request.method, request.path)),
        app.resolves(validate, request, outcome),
    ensures
        outcome == Err::<(RouteId, Seq<u8>), ErrorView>(
            ErrorView::NotFound(request.method + " "@ + request.path),
        ),
{
}

/// A route registered with a request schema hands every body to the
/// validator, with that schema, and goes by what it answers. A body the
/// validator accepts reaches the route's own handler with exactly the
/// accepted bytes, and a body it refuses is refused with the validator's
/// error.
pub proof fn law_schema_round_trip<
    C,
    V: Fn(&[u8], &serde_json::Value) -> Result<Vec<u8>, CoreError>,
>(
    app: AppView<C>,
    validate: V,
    method: Seq<char>,
    path: Seq<char>,
    schema: serde_json::Value,
    tag: Option<Seq<char>>,
    request: RequestView,
    outcome: Result<(RouteId, Seq<u8>), ErrorView>,
)
    requires
        app.wf(),
        app.next_id < u32::MAX,
        route_key(request.method, request.path) == route_key(method, path),
        app.registered(method, path, Some(schema), tag).resolves(validate, request, outcome),
    ensures
        app.registered(method, path, Some(schema), tag).resolution(request) == (Resolution::Check {
            id: app.fresh(),
            bytes: request.body,
            schema,
        }),
        exists|verdict: Result<Vec<u8>, CoreError>| #[trigger]
            asked(validate, request.body, schema, verdict) && outcome == (match verdict {
                Ok(accepted) => Ok::<(RouteId, Seq<u8>), ErrorView>((app.fresh(), accepted@)),
                Err(e) => Err(e@),
            }),
{
    let after = app.registered(method, path, Some(schema), tag);
    let key = route_key(method, path);
    assert(after.table[key] == app.fresh());
    if app.rpc_route is Some {
        assert(app.routes.contains_key(app.rpc_route.unwrap().0));
    }
    assert(checked_by(validate, app.fresh(), request.body, schema, outcome));
    let verdict = choose|verdict: Result<Vec<u8>, CoreError>| #[trigger]
        asked(validate, request.body, schema, verdict) && outcome == settled(
            app.fresh(),
            verdict_view(verdict),
        );
    assert(asked(validate, request.body, schema, verdict));
}

/// A route registered without a schema hands every body on unchanged and
/// asks no validator.
pub proof fn law_plain_route_passes_body<C>(
    app: AppView<C>,
    method: Seq<char>,
    path: Seq<char>,
    tag: Option<Seq<char>>,
    request: RequestView,
)
    requires
        app.wf(),
        app.next_id < u32::MAX,
        route_key(request.method, request.path) == route_key(method, path),
    ensures
        app.registered(method, path, None, tag).resolution(request) == (Resolution::Direct {
            id: app.fresh(),
            payload: request.body,
        }),
{
    let after = app.registered(method, path, None, tag);
    let key = route_key(method, path);
    assert(after.table[key] == app.fresh());
    if app.rpc_route is Some {
        assert(app.routes.contains_key(app.rpc_route.unwrap().0));
    }
}

/// Registering a route keeps the registry well-formed.
pub proof fn law_registered_keeps_wf<C>(
    app: AppView<C>,
    method: Seq<char>,
    path: Seq<char>,
    schema: Option<serde_json::Value>,
    tag: Option<Seq<char>>,
)
    requires
        app.wf(),
        app.next_id < u32::MAX,
    ensures
        app.registered(method, path, schema, tag).wf(),
        (AppView { rpc_route: Some(app.fresh()), ..app.registered(method, path, schema, tag) }).wf(),
{
    let after = app.registered(method, path, schema, tag);
    assert forall|k: (Seq<char>, Seq<char>)| #[trigger]
        after.table.contains_key(k) implies after.routes.contains_key(after.table[k].0) by {
        if k != route_key(method, path) {
            assert(app.table.contains_key(k));
        }
    }
    assert forall|e: Seq<char>, i: int|
        after.subscriptions.contains_key(e) && 0 <= i < after.subscriptions[e].len() implies (
    #[trigger] after.subscriptions[e][i]).0 < after.next_id by {
        assert(app.subscriptions[e][i].0 < app.next_id);
    }
}

/// Registering an RPC method keeps the registry well-formed.
pub proof fn law_rpc_method_keeps_wf<C>(app: AppView<C>, name: Seq<char>, entry: RpcMethod)
    requires
        app.wf(),
        app.next_id < u32::MAX,
        entry.id == app.fresh(),
    ensures
        (AppView {
            next_id: (app.next_id + 1) as u32,
            rpc_methods: app.rpc_methods.insert(name, entry),
            ..app
        }).wf(),
{
    let after = AppView {
        next_id: (app.next_id + 1) as u32,
        rpc_methods: app.rpc_methods.insert(name, entry),
        ..app
    };
    assert forall|e: Seq<char>, i: int|
        after.subscriptions.contains_key(e) && 0 <= i < after.subscriptions[e].len() implies (
    #[trigger] after.subscriptions[e][i]).0 < after.next_id by {
        assert(app.subscriptions[e][i].0 < app.next_id);
    }
}

/// Subscribing to an event type keeps the registry well-formed, puts the new
/// handle last among the subscribers of that type and leaves the
/// subscribers of every other type as they were.
pub proof fn law_subscription_keeps_wf<C>(app: AppView<C>, event_type: Seq<char>)
    requires
        app.wf(),
        app.next_id < u32::MAX,
    ensures
        ({
            let after = AppView {
                next_id: (app.next_id + 1) as u32,
                subscriptions: app.subscriptions.insert(
                    event_type,
                    app.subscribers(event_type).push(app.fresh()),
                ),
                ..app
            };
            &&& after.wf()
            &&& after.subscribers(event_type) == app.subscribers(event_type).push(app.fresh())
            &&& forall|other: Seq<char>|
                other != event_type ==> after.subscribers(other) == app.subscribers(other)
        }),
{
    let after = AppView {
        next_id: (app.next_id + 1) as u32,
        subscriptions: app.subscriptions.insert(
            event_type,
            app.subscribers(event_type).push(app.fresh()),
        ),
        ..app
    };
    assert forall|e: Seq<char>, i: int|
        after.subscriptions.contains_key(e) && 0 <= i < after.subscriptions[e].len() implies (
    #[trigger] after.subscriptions[e][i]).0 < after.next_id by {
        if e == event_type {
            if i < app.subscribers(event_type).len() {
                assert(app.subscriptions[e][i].0 < app.next_id);
            }
        } else {
            assert(app.subscriptions[e][i].0 < app.next_id);
        }
    }
}

} // verus!
