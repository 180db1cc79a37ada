//! The application builder: routes registered together with their handlers,
//! the middleware list, and the one-time installation that moves both into
//! the dispatch function.

use std::collections::HashMap;
use vstd::prelude::*;
use vstd::slice::slice_to_vec;
use crate::dispatch::{Dispatcher, DispatcherView};
use crate::error::{CoreError, ErrorView};
use crate::publish::{event_context, Publication, PublicationView};
use crate::registry::{no_callback, App, AppView, RpcMethod};
use crate::request::{RequestContext, RequestView};
use crate::router::RouteId;
use crate::text::trimmed;

verus! {

/// Registers routes with the registry and keeps the handler of each; holds
/// the middleware list; installs the dispatch function once. `H`, `M`, `C`
/// and `E` are the types of a handler, of a middleware function, of the
/// dispatch function and of a single function that stands in for all
/// handlers.
pub struct Application<H, M, C, E> {
    core: App<C>,
    handlers: HashMap<u32, H>,
    callback_installed: bool,
    middlewares: Vec<M>,
    external_callback: Option<E>,
}

/// The mathematical value of an [`Application`].
pub ghost struct ApplicationView<H, M, C, E> {
    pub core: AppView<C>,
    pub handlers: Map<u32, H>,
    pub installed: bool,
    pub middlewares: Seq<M>,
    pub external: Option<E>,
}

impl<H, M, C, E> ApplicationView<H, M, C, E> {
    /// The builder with nothing registered and nothing installed.
    pub open spec fn empty() -> Self {
        ApplicationView {
            core: AppView::empty(),
            handlers: Map::empty(),
            installed: false,
            middlewares: Seq::empty(),
            external: None,
        }
    }

    /// The tables an installation moves into the dispatch function.
    pub open spec fn tables(self) -> DispatcherView<H, M, E> {
        DispatcherView {
            handlers: self.handlers,
            middlewares: self.middlewares,
            external: self.external,
        }
    }

    /// The builder after an installation that made `cb` of its tables: once
    /// installed, nothing changes any more; before, the tables are moved
    /// out and `cb` goes into the slot.
    pub open spec fn installed_with(self, cb: C) -> Self {
        if self.installed {
            self
        } else {
            ApplicationView {
                core: AppView { callback: Some(cb), ..self.core },
                handlers: Map::empty(),
                installed: true,
                middlewares: Seq::empty(),
                external: None,
            }
        }
    }

    /// The builder after a request was prepared: the installation was
    /// brought about, with `cb` as what was made of the tables, when there
    /// was something to install and nothing installed yet.
    pub open spec fn after_request(self, cb: C) -> Self {
        if !self.installed && self.has_work() {
            self.installed_with(cb)
        } else {
            self
        }
    }

    /// True when a request should bring the installation about: there is a
    /// handler or a stand-in function to install.
    pub open spec fn has_work(self) -> bool {
        self.handlers.len() > 0 || self.external is Some
    }
}

/// The request context made of a method, a path and a body, without
/// headers.
pub open spec fn request_made(method: Seq<char>, path: Seq<char>, body: Seq<u8>) -> RequestView {
    RequestView { method, path, headers: Seq::empty(), body }
}

impl<H, M, C, E> View for Application<H, M, C, E> {
    type V = ApplicationView<H, M, C, E>;

    closed spec fn view(&self) -> ApplicationView<H, M, C, E> {
        ApplicationView {
            core: self.core@,
            handlers: self.handlers@,
            installed: self.callback_installed,
            middlewares: self.middlewares@,
            external: self.external_callback,
        }
    }
}

impl<H, M, C, E> Application<H, M, C, E> {
    /// The empty builder.
    pub fn new() -> (r: Self)
        ensures
            r@ == ApplicationView::<H, M, C, E>::empty(),
            r@.core.wf(),
    {
        Application {
            core: App::new(),
            handlers: HashMap::new(),
            callback_installed: false,
            middlewares: Vec::new(),
            external_callback: None,
        }
    }

    /// The registry behind the builder.
    pub fn registry(&self) -> (r: &App<C>)
        ensures
            r@ == self@.core,
    {
        &self.core
    }

    /// The registry alone, for a transport to serve; the builder is used
    /// up.
    pub fn into_registry(self) -> (r: App<C>)
        ensures
            r@ == self@.core,
    {
        self.core
    }

    /// True when there is a handler or a stand-in function to install.
    pub fn has_work(&self) -> (r: bool)
        ensures
            r == self@.has_work(),
    {
        !self.handlers.is_empty() || self.external_callback.is_some()
    }

    /// Sets the one function that answers for every route. When it is set,
    /// the installation uses it in place of the handler table.
    pub fn set_external_callback(&mut self, cb: E)
        ensures
            final(self)@ == (ApplicationView { external: Some(cb), ..old(self)@ }),
    {
        self.external_callback = Some(cb);
    }

    /// Appends a middleware function to the list.
    pub fn add_middleware(&mut self, mw: M)
        ensures
            final(self)@ == (ApplicationView {
                middlewares: old(self)@.middlewares.push(mw),
                ..old(self)@
            }),
    {
        self.middlewares.push(mw);
    }

    /// Registers a route without a handler of its own.
    pub fn register_route_only(
        &mut self,
        method: &str,
        path: &str,
        request_schema: Option<serde_json::Value>,
        openapi_tag: Option<&str>,
    ) -> (r: Result<RouteId, CoreError>)
        requires
            old(self)@.core.next_id < u32::MAX,
        ensures
            r matches Ok(id) && id == old(self)@.core.fresh(),
            final(self)@ == (ApplicationView {
                core: old(self)@.core.registered(
                    method@,
                    path@,
                    request_schema,
                    match openapi_tag {
                        Some(t) => Some(t@),
                        None => None,
                    },
                ),
                ..old(self)@
            }),
            old(self)@.core.wf() ==> final(self)@.core.wf(),
    {
        self.core.register_route(method, path, request_schema, openapi_tag)
    }

    /// Registers a command route without a handler of its own.
    pub fn add_command_route(
        &mut self,
        context: &str,
        name: &str,
        request_schema: Option<serde_json::Value>,
    ) -> (r: Result<RouteId, CoreError>)
        requires
            old(self)@.core.next_id < u32::MAX,
        ensures
            r matches Ok(id) && id == old(self)@.core.fresh(),
            final(self)@ == (ApplicationView {
                core: old(self)@.core.registered(
                    "POST"@,
                    trimmed(context@, '/') + "/commands/"@ + name@,
                    request_schema,
                    Some(trimmed(context@, '/')),
                ),
                ..old(self)@
            }),
            old(self)@.core.wf() ==> final(self)@.core.wf(),
    {
        self.core.add_command(context, name, request_schema)
    }

    /// Registers a query route without a handler of its own.
    pub fn add_query_route(
        &mut self,
        context: &str,
        name: &str,
        request_schema: Option<serde_json::Value>,
    ) -> (r: Result<RouteId, CoreError>)
        requires
            old(self)@.core.next_id < u32::MAX,
        ensures
            r matches Ok(id) && id == old(self)@.core.fresh(),
            final(self)@ == (ApplicationView {
                core: old(self)@.core.registered(
                    "GET"@,
                    trimmed(context@, '/') + "/queries/"@ + name@,
                    request_schema,
                    Some(trimmed(context@, '/')),
                ),
                ..old(self)@
            }),
            old(self)@.core.wf() ==> final(self)@.core.wf(),
    {
        self.core.add_query(context, name, request_schema)
    }

    /// Registers an RPC method without a handler of its own.
    pub fn add_rpc_method_route(
        &mut self,
        name: &str,
        request_schema: Option<serde_json::Value>,
    ) -> (r: Result<RouteId, CoreError>)
        requires
            old(self)@.core.next_id < u32::MAX,
        ensures
            r matches Ok(id) && id == old(self)@.core.fresh(),
            final(self)@ == (ApplicationView {
                core: AppView {
                    next_id: (old(self)@.core.next_id + 1) as u32,
                    rpc_methods: old(self)@.core.rpc_methods.insert(
                        name@,
                        RpcMethod { id: old(self)@.core.fresh(), schema: request_schema },
                    ),
                    ..old(self)@.core
                },
                ..old(self)@
            }),
            old(self)@.core.wf() ==> final(self)@.core.wf(),
    {
        self.core.add_rpc_method(name, request_schema)
    }

    /// Subscribes a new handle to an event type, without a handler of its
    /// own.
    pub fn subscribe_event_route(&mut self, event_type_id: &str) -> (id: RouteId)
        requires
            old(self)@.core.next_id < u32::MAX,
        ensures
            id == old(self)@.core.fresh(),
            final(self)@ == (ApplicationView {
                core: AppView {
                    next_id: (old(self)@.core.next_id + 1) as u32,
                    subscriptions: old(self)@.core.subscriptions.insert(
                        event_type_id@,
                        old(self)@.core.subscribers(event_type_id@).push(id),
                    ),
                    ..old(self)@.core
                },
                ..old(self)@
            }),
            old(self)@.core.wf() ==> final(self)@.core.wf(),
    {
        self.core.subscribe_event(event_type_id)
    }

    /// Registers a route and the handler that answers it.
    pub fn register_route(
        &mut self,
        method: &str,
        path: &str,
        request_schema: Option<serde_json::Value>,
        handler: H,
        openapi_tag: Option<&str>,
    ) -> (r: Result<RouteId, CoreError>)
        requires
            old(self)@.core.next_id < u32::MAX,
        ensures
            r matches Ok(id) && id == old(self)@.core.fresh(),
            final(self)@ == (ApplicationView {
                core: old(self)@.core.registered(
                    method@,
                    path@,
                    request_schema,
                    match openapi_tag {
                        Some(t) => Some(t@),
                        None => None,
                    },
                ),
                handlers: old(self)@.handlers.insert(old(self)@.core.next_id, handler),
                ..old(self)@
            }),
            old(self)@.core.wf() ==> final(self)@.core.wf(),
    {
        match self.core.register_route(method, path, request_schema, openapi_tag) {
            Ok(id) => {
                self.handlers.insert(id.0, handler);
                Ok(id)
            },
            Err(e) => Err(e),
        }
    }

    /// Registers the command `name` of a context and its handler.
    pub fn add_command(
        &mut self,
        context: &str,
        name: &str,
        request_schema: Option<serde_json::Value>,
        handler: H,
    ) -> (r: Result<RouteId, CoreError>)
        requires
            old(self)@.core.next_id < u32::MAX,
        ensures
            r matches Ok(id) && id == old(self)@.core.fresh(),
            final(self)@ == (ApplicationView {
                core: old(self)@.core.registered(
                    "POST"@,
                    trimmed(context@, '/') + "/commands/"@ + name@,
                    request_schema,
                    Some(trimmed(context@, '/')),
                ),
                handlers: old(self)@.handlers.insert(old(self)@.core.next_id, handler),
                ..old(self)@
            }),
            old(self)@.core.wf() ==> final(self)@.core.wf(),
    {
        match self.core.add_command(context, name, request_schema) {
            Ok(id) => {
                self.handlers.insert(id.0, handler);
                Ok(id)
            },
            Err(e) => Err(e),
        }
    }

    /// Registers the query `name` of a context and its handler.
    pub fn add_query(
        &mut self,
        context: &str,
        name: &str,
        request_schema: Option<serde_json::Value>,
        handler: H,
    ) -> (r: Result<RouteId, CoreError>)
        requires
            old(self)@.core.next_id < u32::MAX,
        ensures
            r matches Ok(id) && id == old(self)@.core.fresh(),
            final(self)@ == (ApplicationView {
                core: old(self)@.core.registered(
                    "GET"@,
                    trimmed(context@, '/') + "/queries/"@ + name@,
                    request_schema,
                    Some(trimmed(context@, '/')),
                ),
                handlers: old(self)@.handlers.insert(old(self)@.core.next_id, handler),
                ..old(self)@
            }),
            old(self)@.core.wf() ==> final(self)@.core.wf(),
    {
        match self.core.add_query(context, name, request_schema) {
            Ok(id) => {
                self.handlers.insert(id.0, handler);
                Ok(id)
            },
            Err(e) => Err(e),
        }
    }

    /// Registers the one RPC route.
    pub fn add_rpc_route(&mut self, path: &str) -> (r: Result<(), CoreError>)
        requires
            old(self)@.core.next_id < u32::MAX,
        ensures
            r is Ok,
            final(self)@ == (ApplicationView {
                core: AppView {
                    rpc_route: Some(old(self)@.core.fresh()),
                    ..old(self)@.core.registered(
                        "POST"@,
                        trimmed(path@, '/'),
                        None,
                        Some("RPC"@),
                    )
                },
                ..old(self)@
            }),
            old(self)@.core.wf() ==> final(self)@.core.wf(),
    {
        self.core.add_rpc_route(path)
    }

    /// Registers an RPC method and the handler that answers it.
    pub fn add_rpc_method(
        &mut self,
        name: &str,
        request_schema: Option<serde_json::Value>,
        handler: H,
    ) -> (r: Result<RouteId, CoreError>)
        requires
            old(self)@.core.next_id < u32::MAX,
        ensures
            r matches Ok(id) && id == old(self)@.core.fresh(),
            final(self)@ == (ApplicationView {
                core: AppView {
                    next_id: (old(self)@.core.next_id + 1) as u32,
                    rpc_methods: old(self)@.core.rpc_methods.insert(
                        name@,
                        RpcMethod { id: old(self)@.core.fresh(), schema: request_schema },
                    ),
                    ..old(self)@.core
                },
                handlers: old(self)@.handlers.insert(old(self)@.core.next_id, handler),
                ..old(self)@
            }),
            old(self)@.core.wf() ==> final(self)@.core.wf(),
    {
        match self.core.add_rpc_method(name, request_schema) {
            Ok(id) => {
                self.handlers.insert(id.0, handler);
                Ok(id)
            },
            Err(e) => Err(e),
        }
    }

    /// Installs the dispatch function, once. The first call moves the
    /// handler table, the middleware list and the stand-in function out of
    /// the builder, hands them to `make`, and puts what `make` returns into
    /// the slot. Every later call does nothing and does not call `make`.
    pub fn install_callback<F: FnOnce(Dispatcher<H, M, E>) -> C>(&mut self, make: F)
        requires
            forall|d: Dispatcher<H, M, E>| make.requires((d,)),
        ensures
            old(self)@.installed ==> final(self)@ == old(self)@,
            !old(self)@.installed ==> exists|d: Dispatcher<H, M, E>, cb: C|
                d@ == old(self)@.tables() && #[trigger] make.ensures((d,), cb) && final(self)@
                    == old(self)@.installed_with(cb),
    {
        if self.callback_installed {
            return ;
        }
        self.callback_installed = true;
        let mut handlers: HashMap<u32, H> = HashMap::new();
        std::mem::swap(&mut self.handlers, &mut handlers);
        let mut middlewares: Vec<M> = Vec::new();
        std::mem::swap(&mut self.middlewares, &mut middlewares);
        let mut external: Option<E> = None;
        std::mem::swap(&mut self.external_callback, &mut external);
        let dispatcher = Dispatcher::new(handlers, middlewares, external);
        let ghost moved = dispatcher;
        let cb = make(dispatcher);
        self.core.set_callback(cb);
        proof {
            assert(make.ensures((moved,), cb));
            assert(self@.handlers =~= Map::<u32, H>::empty());
            assert(self@.middlewares =~= Seq::<M>::empty());
            assert(self@ == old(self)@.installed_with(cb));
        }
    }

    /// Prepares one request: brings the installation about when there is
    /// something to install, builds the request context, resolves it, and
    /// makes sure a dispatch function is there to call.
    pub fn handle_request<
        F: FnOnce(Dispatcher<H, M, E>) -> C,
        V: Fn(&[u8], &serde_json::Value) -> Result<Vec<u8>, CoreError>,
    >(&mut self, method: &str, path: &str, body: &[u8], make: F, validate: &V) -> (r: Result<
        (RequestContext, RouteId, Vec<u8>),
        CoreError,
    >)
        requires
            forall|d: Dispatcher<H, M, E>| make.requires((d,)),
            forall|b: &[u8], s: &serde_json::Value| validate.requires((b, s)),
        ensures
            old(self)@.installed || !old(self)@.has_work() ==> final(self)@ == old(self)@,
            !old(self)@.installed && old(self)@.has_work() ==> exists|
                d: Dispatcher<H, M, E>,
                cb: C,
            |
                d@ == old(self)@.tables() && #[trigger] make.ensures((d,), cb) && final(self)@
                    == old(self)@.after_request(cb),
            final(self)@.core == (AppView { callback: final(self)@.core.callback, ..old(self)@.core }),
            final(self)@.core.handles(
                *validate,
                request_made(method@, path@, body@),
                match r {
                    Ok(call) => Ok((call.1, call.2@)),
                    Err(e) => Err(e@),
                },
            ),
            r matches Ok(call) ==> call.0@ == request_made(method@, path@, body@)
                && final(self)@.core.callback is Some,
    {
        if !self.handlers.is_empty() || self.external_callback.is_some() {
            self.install_callback(make);
        }
        let context = RequestContext {
            method: method.to_owned(),
            path: path.to_owned(),
            headers: Vec::new(),
            body: slice_to_vec(body),
        };
        proof {
            assert(context@.headers =~= Seq::<(Seq<char>, Seq<char>)>::empty());
        }
        match self.core.handle_request(&context, validate) {
            Ok(call) => {
                let handler_id = call.handler_id;
                let payload = call.payload;
                Ok((context, handler_id, payload))
            },
            Err(e) => Err(e),
        }
    }

    /// Starts a publish to the subscribers of an event type.
    pub fn publish_event_by_name(&self, event_type_id: &str, payload: &[u8]) -> (r: Result<
        Publication,
        CoreError,
    >)
        ensures
            match r {
                Ok(p) => self@.core.callback is Some && p@ == (PublicationView {
                    context: event_context(payload@),
                    handlers: self@.core.subscribers(event_type_id@),
                    cursor: 0,
                }),
                Err(e) => self@.core.callback is None && e@ == no_callback(),
            },
    {
        self.core.publish_event(event_type_id, payload)
    }
}

impl<H, M, C, E> Default for Application<H, M, C, E> {
    fn default() -> (r: Self)
        ensures
            r@ == ApplicationView::<H, M, C, E>::empty(),
    {
        Application::new()
    }
}

/// Installing twice is installing once: whatever the second installation
/// would have made of the tables, the builder stays as the first left it.
pub proof fn law_install_is_idempotent<H, M, C, E>(
    app: ApplicationView<H, M, C, E>,
    first: C,
    second: C,
)
    ensures
        app.installed_with(first).installed_with(second) == app.installed_with(first),
        app.installed_with(first).installed,
        !app.installed ==> app.installed_with(first).core.callback == Some(first),
        app.installed ==> app.installed_with(first) == app,
{
}

/// Requests in a row install once: the first request leaves the builder as
/// one installation leaves it, every further request leaves it as it finds
/// it, and each of them is resolved by the same registry, so that with the
/// same validator each comes to what it would on an application installed
/// once.
pub proof fn law_requests_install_once<
    H,
    M,
    C,
    E,
    V: Fn(&[u8], &serde_json::Value) -> Result<Vec<u8>, CoreError>,
>(
    app: ApplicationView<H, M, C, E>,
    first: C,
    second: C,
    validate: V,
    request: RequestView,
    outcome: Result<(RouteId, Seq<u8>), ErrorView>,
)
    ensures
        app.after_request(first).after_request(second) == app.after_request(first),
        !app.installed && app.has_work() ==> app.after_request(first) == app.installed_with(first),
        app.after_request(first).core.resolution(request) == app.core.resolution(request),
        app.after_request(first).after_request(second).core.handles(validate, request, outcome)
            == app.after_request(first).core.handles(validate, request, outcome),
{
    let once = app.after_request(first);
    if !app.installed && app.has_work() {
        assert(once.handlers =~= Map::<u32, H>::empty());
        assert(once.handlers.len() == 0);
    }
}

/// Once installed, the slot keeps its function through every further
/// installation.
pub proof fn law_install_is_irreversible<H, M, C, E>(app: ApplicationView<H, M, C, E>, again: C)
    requires
        app.installed,
    ensures
        app.installed_with(again).core.callback == app.core.callback,
        app.installed_with(again).installed,
{
}

} // verus!
