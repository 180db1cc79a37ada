//! The installed dispatch: middleware in registration order, the first answer
//! among them ends the request, and only when none answers does the handler
//! of the resolved route run.
//!
//! Middleware and handlers are the application's own functions and may
//! suspend; running them is the caller's work. A [`DispatchRun`] says which
//! of them is next and what the request comes to, given what each returned.

use std::collections::HashMap;
use vstd::prelude::*;
use crate::error::{CoreError, ErrorView};
use crate::json::{json_from_slice, json_null, json_parsed, json_text, json_to_vec, null_text};
use crate::request::{Response, ResponseView};
use crate::router::RouteId;
use crate::text::{decimal, decimal_text, join3};

verus! {

/// The handler table and middleware list as they stood when the dispatch
/// function was installed. Nothing can be added afterwards. `H`, `M` and `E`
/// are the types of a handler, of a middleware function and of a single
/// function that stands in for all handlers.
pub struct Dispatcher<H, M, E> {
    handlers: HashMap<u32, H>,
    middlewares: Vec<M>,
    external: Option<E>,
}

/// The mathematical value of a [`Dispatcher`].
pub ghost struct DispatcherView<H, M, E> {
    pub handlers: Map<u32, H>,
    pub middlewares: Seq<M>,
    pub external: Option<E>,
}

impl<H, M, E> View for Dispatcher<H, M, E> {
    type V = DispatcherView<H, M, E>;

    closed spec fn view(&self) -> DispatcherView<H, M, E> {
        DispatcherView {
            handlers: self.handlers@,
            middlewares: self.middlewares@,
            external: self.external,
        }
    }
}

/// Where a dispatch stands.
#[derive(Clone, Copy, Debug, PartialEq, Eq, Structural)]
pub enum Stage {
    /// The middleware with this index has been asked and has not answered.
    Middleware(usize),
    /// The handler has been called and has not returned.
    Handler,
    /// The stand-in function has been called and has not returned.
    External,
    /// The request has its result.
    Finished,
}

/// What the caller does next.
#[derive(Debug)]
pub enum DispatchAction {
    /// Ask the middleware with this index.
    RunMiddleware(usize),
    /// Call the handler of this route with this JSON value.
    RunHandler { route_id: RouteId, value: serde_json::Value },
    /// Call the stand-in function with this handle and the raw payload.
    RunExternal { route_id: RouteId },
    /// The request is over, with this result.
    Finish(Result<Response, CoreError>),
}

/// The mathematical value of a [`DispatchAction`]; a JSON value stands in it
/// by its content.
pub ghost enum ActionView {
    RunMiddleware(nat),
    RunHandler { route_id: RouteId, value: Seq<u8> },
    RunExternal { route_id: RouteId },
    Finish(Result<ResponseView, ErrorView>),
}

impl View for DispatchAction {
    type V = ActionView;

    open spec fn view(&self) -> ActionView {
        match self {
            DispatchAction::RunMiddleware(i) => ActionView::RunMiddleware(*i as nat),
            DispatchAction::RunHandler { route_id, value } => ActionView::RunHandler {
                route_id: *route_id,
                value: json_text(*value),
            },
            DispatchAction::RunExternal { route_id } => ActionView::RunExternal {
                route_id: *route_id,
            },
            DispatchAction::Finish(Ok(r)) => ActionView::Finish(Ok(r@)),
            DispatchAction::Finish(Err(e)) => ActionView::Finish(Err(e@)),
        }
    }
}

/// What came back from the work the last action asked for.
#[derive(Debug)]
pub enum DispatchEvent {
    /// The middleware answered with a response, or let the request pass.
    MiddlewareDone(Option<Response>),
    /// The handler returned.
    HandlerDone(Result<serde_json::Value, CoreError>),
    /// The stand-in function returned.
    ExternalDone(Result<Response, CoreError>),
}

/// The mathematical value of a [`DispatchEvent`].
pub ghost enum EventView {
    MiddlewareDone(Option<ResponseView>),
    HandlerDone(Result<Seq<u8>, ErrorView>),
    ExternalDone(Result<ResponseView, ErrorView>),
}

impl View for DispatchEvent {
    type V = EventView;

    open spec fn view(&self) -> EventView {
        match self {
            DispatchEvent::MiddlewareDone(Some(r)) => EventView::MiddlewareDone(Some(r@)),
            DispatchEvent::MiddlewareDone(None) => EventView::MiddlewareDone(None),
            DispatchEvent::HandlerDone(Ok(v)) => EventView::HandlerDone(Ok(json_text(*v))),
            DispatchEvent::HandlerDone(Err(e)) => EventView::HandlerDone(Err(e@)),
            DispatchEvent::ExternalDone(Ok(r)) => EventView::ExternalDone(Ok(r@)),
            DispatchEvent::ExternalDone(Err(e)) => EventView::ExternalDone(Err(e@)),
        }
    }
}

/// The error of a dispatch that is handed an event its stage does not wait
/// for.
pub open spec fn out_of_step() -> ErrorView {
    ErrorView::Validation("dispatch event out of step"@)
}

/// The error of a handle without a handler.
pub open spec fn no_handler(route_id: RouteId) -> ErrorView {
    ErrorView::NotFound("route_id RouteId("@ + decimal(route_id.0 as nat) + ")"@)
}

/// The answer made of what a handler returned: status 200, the content of
/// the returned value as the body, no content type of its own.
pub open spec fn handler_answer(value: Seq<u8>) -> ResponseView {
    ResponseView { status_code: 200, body: value, content_type: None }
}

impl<H, M, E> DispatcherView<H, M, E> {
    /// What follows once every middleware has let the request pass: the
    /// stand-in function if there is one; else the payload is read as JSON
    /// (an empty payload as `null`) and the handler of the route is called.
    pub open spec fn enter(self, route_id: RouteId, body: Seq<u8>) -> (Stage, ActionView) {
        if self.external is Some {
            (Stage::External, ActionView::RunExternal { route_id })
        } else if body.len() > 0 && json_parsed(body) is Err {
            (
                Stage::Finished,
                ActionView::Finish(Err(ErrorView::Validation(json_parsed(body)->Err_0))),
            )
        } else if !self.handlers.contains_key(route_id.0) {
            (Stage::Finished, ActionView::Finish(Err(no_handler(route_id))))
        } else {
            (
                Stage::Handler,
                ActionView::RunHandler {
                    route_id,
                    value: if body.len() == 0 {
                        null_text()
                    } else {
                        json_parsed(body)->Ok_0
                    },
                },
            )
        }
    }

    /// The first step of a dispatch.
    pub open spec fn begin(self, route_id: RouteId, body: Seq<u8>) -> (Stage, ActionView) {
        if self.middlewares.len() > 0 {
            (Stage::Middleware(0), ActionView::RunMiddleware(0))
        } else {
            self.enter(route_id, body)
        }
    }

    /// The step after `event` came back at `stage`.
    pub open spec fn resume(self, stage: Stage, route_id: RouteId, body: Seq<u8>, event: EventView) -> (
        Stage,
        ActionView,
    ) {
        match (stage, event) {
            (Stage::Middleware(_), EventView::MiddlewareDone(Some(answer))) => (
                Stage::Finished,
                ActionView::Finish(Ok(answer)),
            ),
            (Stage::Middleware(i), EventView::MiddlewareDone(None)) => if i + 1
                < self.middlewares.len() {
                (Stage::Middleware((i + 1) as usize), ActionView::RunMiddleware((i + 1) as nat))
            } else {
                self.enter(route_id, body)
            },
            (Stage::Handler, EventView::HandlerDone(Ok(value))) => (
                Stage::Finished,
                ActionView::Finish(Ok(handler_answer(value))),
            ),
            (Stage::Handler, EventView::HandlerDone(Err(e))) => (
                Stage::Finished,
                ActionView::Finish(Err(e)),
            ),
            (Stage::External, EventView::ExternalDone(result)) => (
                Stage::Finished,
                ActionView::Finish(result),
            ),
            _ => (Stage::Finished, ActionView::Finish(Err(out_of_step()))),
        }
    }

    /// The first action that is not a question to a middleware, when the
    /// middleware from index `from` on answer as `verdicts` says, the first
    /// entry for the middleware `from`.
    pub open spec fn settle(
        self,
        from: nat,
        route_id: RouteId,
        body: Seq<u8>,
        verdicts: Seq<Option<ResponseView>>,
    ) -> ActionView
        decreases verdicts.len(),
    {
        if verdicts.len() == 0 {
            self.enter(route_id, body).1
        } else {
            let (stage, action) = self.resume(
                Stage::Middleware(from as usize),
                route_id,
                body,
                EventView::MiddlewareDone(verdicts[0]),
            );
            match action {
                ActionView::RunMiddleware(next) => self.settle(
                    next,
                    route_id,
                    body,
                    verdicts.subrange(1, verdicts.len() as int),
                ),
                _ => action,
            }
        }
    }
}

/// The answer made of what a handler returned, once it has been written out
/// as JSON: a failed encoding is a `Json` error.
pub fn settle_handler(encoded: Result<Vec<u8>, String>) -> (r: Result<Response, CoreError>)
    ensures
        match r {
            Ok(answer) => encoded matches Ok(bytes) && answer@ == handler_answer(bytes@),
            Err(e) => encoded matches Err(m) && e@ == ErrorView::Json(m@),
        },
{
    match encoded {
        Ok(bytes) => Ok(Response { status_code: 200, body: bytes, content_type: None }),
        Err(m) => Err(CoreError::Json(m)),
    }
}

/// One request on its way through the installed dispatch.
pub struct DispatchRun {
    route_id: RouteId,
    body: Vec<u8>,
    stage: Stage,
}

impl DispatchRun {
    /// The handle the request resolved to.
    pub closed spec fn route_id(&self) -> RouteId {
        self.route_id
    }

    /// The payload of the request.
    pub closed spec fn body(&self) -> Seq<u8> {
        self.body@
    }

    /// Where the request stands.
    pub closed spec fn stage(&self) -> Stage {
        self.stage
    }

    /// The payload of the request.
    pub fn payload(&self) -> (r: &Vec<u8>)
        ensures
            r@ == self.body(),
    {
        &self.body
    }

    /// True once the request has its result.
    pub fn is_finished(&self) -> (r: bool)
        ensures
            r == (self.stage() == Stage::Finished),
    {
        match self.stage {
            Stage::Finished => true,
            _ => false,
        }
    }
}

impl<H, M, E> Dispatcher<H, M, E> {
    /// A dispatcher over the given tables.
    pub fn new(handlers: HashMap<u32, H>, middlewares: Vec<M>, external: Option<E>) -> (r: Self)
        ensures
            r@ == (DispatcherView { handlers: handlers@, middlewares: middlewares@, external }),
    {
        Dispatcher { handlers, middlewares, external }
    }

    /// The number of middleware functions.
    pub fn middleware_count(&self) -> (n: usize)
        ensures
            n == self@.middlewares.len(),
    {
        self.middlewares.len()
    }

    /// The middleware function with the given index.
    pub fn middleware(&self, index: usize) -> (r: Option<&M>)
        ensures
            match r {
                Some(m) => index < self@.middlewares.len() && *m == self@.middlewares[index as int],
                None => index >= self@.middlewares.len(),
            },
    {
        if index < self.middlewares.len() {
            Some(&self.middlewares[index])
        } else {
            None
        }
    }

    /// The handler registered for a handle.
    pub fn handler(&self, route_id: RouteId) -> (r: Option<&H>)
        ensures
            match r {
                Some(h) => self@.handlers.contains_key(route_id.0) && *h
                    == self@.handlers[route_id.0],
                None => !self@.handlers.contains_key(route_id.0),
            },
    {
        self.handlers.get(&route_id.0)
    }

    /// The function that stands in for all handlers, if there is one.
    pub fn external(&self) -> (r: Option<&E>)
        ensures
            match r {
                Some(e) => self@.external == Some(*e),
                None => self@.external is None,
            },
    {
        self.external.as_ref()
    }

    fn enter(&self, route_id: RouteId, body: &Vec<u8>) -> (r: (Stage, DispatchAction))
        ensures
            (r.0, r.1@) == self@.enter(route_id, body@),
    {
        if self.external.is_some() {
            return (Stage::External, DispatchAction::RunExternal { route_id });
        }
        let value = if body.len() == 0 {
            json_null()
        } else {
            match json_from_slice(body.as_slice()) {
                Ok(v) => v,
                Err(m) => {
                    return (Stage::Finished, DispatchAction::Finish(Err(CoreError::Validation(m))));
                },
            }
        };
        if self.handlers.get(&route_id.0).is_none() {
            let number = decimal_text(route_id.0);
            let text = join3("route_id RouteId(", number.as_str(), ")");
            return (Stage::Finished, DispatchAction::Finish(Err(CoreError::NotFound(text))));
        }
        (Stage::Handler, DispatchAction::RunHandler { route_id, value })
    }

    /// Starts the dispatch of a request that resolved to `route_id` with
    /// the payload `body`.
    pub fn begin(&self, route_id: RouteId, body: Vec<u8>) -> (r: (DispatchRun, DispatchAction))
        ensures
            r.0.route_id() == route_id,
            r.0.body() == body@,
            (r.0.stage(), r.1@) == self@.begin(route_id, body@),
    {
        if self.middlewares.len() > 0 {
            (
                DispatchRun { route_id, body, stage: Stage::Middleware(0) },
                DispatchAction::RunMiddleware(0),
            )
        } else {
            let (stage, action) = self.enter(route_id, &body);
            (DispatchRun { route_id, body, stage }, action)
        }
    }

    /// Says what to do next, given what came back from the last action.
    pub fn resume(&self, run: &mut DispatchRun, event: DispatchEvent) -> (action: DispatchAction)
        ensures
            final(run).route_id() == old(run).route_id(),
            final(run).body() == old(run).body(),
            (final(run).stage(), action@) == self@.resume(
                old(run).stage(),
                old(run).route_id(),
                old(run).body(),
                event@,
            ),
    {
        let stage = run.stage;
        match (stage, event) {
            (Stage::Middleware(_), DispatchEvent::MiddlewareDone(Some(answer))) => {
                run.stage = Stage::Finished;
                DispatchAction::Finish(Ok(answer))
            },
            (Stage::Middleware(i), DispatchEvent::MiddlewareDone(None)) => {
                if i < self.middlewares.len() && i + 1 < self.middlewares.len() {
                    run.stage = Stage::Middleware(i + 1);
                    DispatchAction::RunMiddleware(i + 1)
                } else {
                    let (next, action) = self.enter(run.route_id, &run.body);
                    run.stage = next;
                    action
                }
            },
            (Stage::Handler, DispatchEvent::HandlerDone(Ok(value))) => {
                run.stage = Stage::Finished;
                DispatchAction::Finish(settle_handler(json_to_vec(&value)))
            },
            (Stage::Handler, DispatchEvent::HandlerDone(Err(e))) => {
                run.stage = Stage::Finished;
                DispatchAction::Finish(Err(e))
            },
            (Stage::External, DispatchEvent::ExternalDone(result)) => {
                run.stage = Stage::Finished;
                DispatchAction::Finish(result)
            },
            _ => {
                run.stage = Stage::Finished;
                DispatchAction::Finish(
                    Err(CoreError::Validation("dispatch event out of step".to_owned())),
                )
            },
        }
    }
}

/// A middleware that answers ends the request with its answer: when the
/// middleware number `k`, counted from `from`, is the first to answer, that
/// answer is the result, and neither a handler nor the stand-in function nor
/// any later middleware is asked.
pub proof fn law_first_answer_wins<H, M, E>(
    d: DispatcherView<H, M, E>,
    from: nat,
    route_id: RouteId,
    body: Seq<u8>,
    verdicts: Seq<Option<ResponseView>>,
    k: int,
)
    requires
        from + verdicts.len() == d.middlewares.len(),
        d.middlewares.len() <= usize::MAX,
        0 <= k < verdicts.len(),
        verdicts[k] is Some,
        forall|i: int| 0 <= i < k ==> verdicts[i] is None,
    ensures
        d.settle(from, route_id, body, verdicts) == ActionView::Finish(
            Ok::<ResponseView, ErrorView>(verdicts[k].unwrap()),
        ),
    decreases k,
{
    if k > 0 {
        let rest = verdicts.subrange(1, verdicts.len() as int);
        law_first_answer_wins(d, from + 1, route_id, body, rest, k - 1);
    }
}

/// When no middleware answers, the request goes on to the handler of its
/// route (or to the stand-in function): removing a middleware that answered,
/// or meeting its condition, lets the handler run.
pub proof fn law_silent_chain_reaches_handler<H, M, E>(
    d: DispatcherView<H, M, E>,
    from: nat,
    route_id: RouteId,
    body: Seq<u8>,
    verdicts: Seq<Option<ResponseView>>,
)
    requires
        from + verdicts.len() == d.middlewares.len(),
        d.middlewares.len() <= usize::MAX,
        forall|i: int| 0 <= i < verdicts.len() ==> verdicts[i] is None,
    ensures
        d.settle(from, route_id, body, verdicts) == d.enter(route_id, body).1,
    decreases verdicts.len(),
{
    if verdicts.len() > 0 {
        let rest = verdicts.subrange(1, verdicts.len() as int);
        if verdicts.len() > 1 {
            law_silent_chain_reaches_handler(d, from + 1, route_id, body, rest);
        } else {
            assert(rest.len() == 0);
        }
    }
}

} // verus!
