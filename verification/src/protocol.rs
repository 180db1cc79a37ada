//! The protocol core: one entry point for every kind of connection. What a
//! connection receives and sends, and in which order, is decided here;
//! receiving, sending and calling the dispatch function are the transport's
//! work, which reports back what came of each.

use vstd::prelude::*;
use vstd::string::{StrSliceExecFns, StringSliceAdditionalSpecFns};
use crate::asgi::{
    AsgiReceiveMessage, AsgiSendMessage, HttpScope, HttpScopeView, LifespanScope, ReceiveView,
    Scope, ScopeView, SendView,
};
use crate::error::{CoreError, ErrorView};
use crate::json::json_to_vec;
use crate::openapi::describes;
use crate::registry::{App, AppView};
use crate::request::{RequestContext, RequestView, Response, ResponseView};
use crate::router::RouteId;
use crate::text::{same_text, skip_leading, trim_start};

verus! {

/// The page served under `/docs`: it loads the interactive documentation and
/// points it at the specification document.
pub const SWAGGER_UI_HTML: &'static str =
    "<!DOCTYPE html>\n<html>\n<head><title>Swagger UI</title><link rel=\"stylesheet\" href=\"https://unpkg.com/swagger-ui-dist@5/swagger-ui.css\"></head>\n<body><div id=\"swagger-ui\"></div>\n<script src=\"https://unpkg.com/swagger-ui-dist@5/swagger-ui-bundle.js\"></script>\n<script>SwaggerUIBundle({ url: '/openapi.json', dom_id: '#swagger-ui' });</script>\n</body>\n</html>";

/// The close code sent to a WebSocket connection: the feature is not
/// supported.
pub const WS_UNSUPPORTED: u16 = 1008;

/// Where a protocol call stands.
#[derive(Debug)]
pub enum CallStage {
    /// Waiting for the lifespan event.
    AwaitLifespan(LifespanScope),
    /// Waiting for the body of the request.
    AwaitRequest(HttpScope),
    /// Waiting for the dispatch function to return.
    AwaitCallback,
    /// The start of the response is on its way; this body follows it.
    PendingBody(Vec<u8>),
    /// The last message is on its way.
    Closing,
    /// The call is over.
    Finished,
}

/// The mathematical value of a [`CallStage`].
pub ghost enum StageView {
    AwaitLifespan(LifespanScope),
    AwaitRequest(HttpScopeView),
    AwaitCallback,
    PendingBody(Seq<u8>),
    Closing,
    Finished,
}

impl View for CallStage {
    type V = StageView;

    open spec fn view(&self) -> StageView {
        match self {
            CallStage::AwaitLifespan(s) => StageView::AwaitLifespan(*s),
            CallStage::AwaitRequest(h) => StageView::AwaitRequest(h@),
            CallStage::AwaitCallback => StageView::AwaitCallback,
            CallStage::PendingBody(b) => StageView::PendingBody(b@),
            CallStage::Closing => StageView::Closing,
            CallStage::Finished => StageView::Finished,
        }
    }
}

/// What the transport does next.
#[derive(Debug)]
pub enum CallAction {
    /// Take the next message from the receive endpoint.
    Receive,
    /// Put this message into the send endpoint.
    Send(AsgiSendMessage),
    /// Call the dispatch function.
    Invoke { handler_id: RouteId, payload: Vec<u8>, request: RequestContext },
    /// The call is over, with this result.
    Finish(Result<(), CoreError>),
}

/// The mathematical value of a [`CallAction`].
pub ghost enum CallActionView {
    Receive,
    Send(SendView),
    Invoke { handler_id: RouteId, payload: Seq<u8>, request: RequestView },
    Finish(Result<(), ErrorView>),
}

impl View for CallAction {
    type V = CallActionView;

    open spec fn view(&self) -> CallActionView {
        match self {
            CallAction::Receive => CallActionView::Receive,
            CallAction::Send(m) => CallActionView::Send(m@),
            CallAction::Invoke { handler_id, payload, request } => CallActionView::Invoke {
                handler_id: *handler_id,
                payload: payload@,
                request: request@,
            },
            CallAction::Finish(Ok(())) => CallActionView::Finish(Ok(())),
            CallAction::Finish(Err(e)) => CallActionView::Finish(Err(e@)),
        }
    }
}

/// What came of the last action.
#[derive(Debug)]
pub enum CallEvent {
    /// The receive endpoint returned; `None` is the end of the stream.
    Received(Result<Option<AsgiReceiveMessage>, CoreError>),
    /// The send endpoint returned.
    Sent(Result<(), CoreError>),
    /// The dispatch function returned.
    Invoked(Result<Response, CoreError>),
}

/// The mathematical value of a [`CallEvent`].
pub ghost enum CallEventView {
    Received(Result<Option<ReceiveView>, ErrorView>),
    Sent(Result<(), ErrorView>),
    Invoked(Result<ResponseView, ErrorView>),
}

impl View for CallEvent {
    type V = CallEventView;

    open spec fn view(&self) -> CallEventView {
        match self {
            CallEvent::Received(Ok(Some(m))) => CallEventView::Received(Ok(Some(m@))),
            CallEvent::Received(Ok(None)) => CallEventView::Received(Ok(None)),
            CallEvent::Received(Err(e)) => CallEventView::Received(Err(e@)),
            CallEvent::Sent(Ok(())) => CallEventView::Sent(Ok(())),
            CallEvent::Sent(Err(e)) => CallEventView::Sent(Err(e@)),
            CallEvent::Invoked(Ok(r)) => CallEventView::Invoked(Ok(r@)),
            CallEvent::Invoked(Err(e)) => CallEventView::Invoked(Err(e@)),
        }
    }
}

/// The one header of a response: its content type.
pub open spec fn content_type_header(value: Seq<char>) -> Seq<(Seq<char>, Seq<char>)> {
    seq![("Content-Type"@, value)]
}

/// The start of a response with the given status and content type.
pub open spec fn response_start(status: u16, content_type: Seq<char>) -> CallActionView {
    CallActionView::Send(
        SendView::HttpResponseStart { status, headers: content_type_header(content_type) },
    )
}

/// The message that acknowledges a lifespan event.
pub open spec fn lifespan_complete(scope: LifespanScope) -> SendView {
    match scope {
        LifespanScope::Startup => SendView::LifespanStartupComplete,
        LifespanScope::Shutdown => SendView::LifespanShutdownComplete,
    }
}

/// The request context made of a scope and the body that was received.
pub open spec fn request_of(scope: HttpScopeView, body: Seq<u8>) -> RequestView {
    RequestView { method: scope.method, path: scope.path, headers: scope.headers, body }
}

/// The error of a call that is handed an event its stage does not wait for.
pub open spec fn call_out_of_step() -> ErrorView {
    ErrorView::Validation("protocol event out of step"@)
}

/// The end of a call.
pub open spec fn finish(result: Result<(), ErrorView>) -> (StageView, CallActionView) {
    (StageView::Finished, CallActionView::Finish(result))
}

/// The first step for a connection with the given scope: a lifespan or HTTP
/// connection starts by receiving, a WebSocket connection is closed at once
/// with the code for an unsupported feature.
pub open spec fn call_begin(scope: ScopeView) -> (StageView, CallActionView) {
    match scope {
        ScopeView::Lifespan(s) => (StageView::AwaitLifespan(s), CallActionView::Receive),
        ScopeView::Http(h) => (StageView::AwaitRequest(h), CallActionView::Receive),
        ScopeView::WebSocket(_) => (
            StageView::Closing,
            CallActionView::Send(SendView::WsClose { code: Some(WS_UNSUPPORTED) }),
        ),
    }
}

/// True for the path of the specification document.
pub open spec fn is_spec_path(path: Seq<char>) -> bool {
    skip_leading(path, '/') == "openapi.json"@
}

/// True for the two paths the protocol answers itself: the specification
/// document and the documentation page.
pub open spec fn is_own_path(path: Seq<char>) -> bool {
    is_spec_path(path) || skip_leading(path, '/') == "docs"@
}

/// True for the step that answers with the specification document: the
/// body of an HTTP request to its path has arrived.
pub open spec fn specified(stage: StageView, event: CallEventView) -> bool {
    match (stage, event) {
        (
            StageView::AwaitRequest(h),
            CallEventView::Received(Ok(Some(ReceiveView::HttpRequest { .. }))),
        ) => is_spec_path(h.path),
        _ => false,
    }
}

/// The request that a step hands to the registry, if it hands it one: the
/// body of an HTTP request has arrived, and its path is not one of the two
/// the protocol answers itself.
pub open spec fn dispatched(stage: StageView, event: CallEventView) -> Option<RequestView> {
    match (stage, event) {
        (
            StageView::AwaitRequest(h),
            CallEventView::Received(Ok(Some(ReceiveView::HttpRequest { body }))),
        ) => if is_own_path(h.path) {
            None
        } else {
            Some(request_of(h, body))
        },
        _ => None,
    }
}

/// Where a received request goes: the two documentation paths are answered
/// here, the first with `document`, the specification document of the
/// registry, the second with the documentation page; every other request
/// goes by what the registry made of it, `handled`: to the dispatch
/// function with the handler and payload it resolved to, or to the end of
/// the call with the error.
pub open spec fn route_request(
    request: RequestView,
    handled: Result<(RouteId, Seq<u8>), ErrorView>,
    document: Seq<u8>,
) -> (StageView, CallActionView) {
    let path = skip_leading(request.path, '/');
    if path == "openapi.json"@ {
        (StageView::PendingBody(document), response_start(200, "application/json"@))
    } else if path == "docs"@ {
        (StageView::PendingBody(SWAGGER_UI_HTML.spec_bytes()), response_start(200, "text/html"@))
    } else {
        match handled {
            Err(e) => finish(Err(e)),
            Ok(hit) => (
                StageView::AwaitCallback,
                CallActionView::Invoke { handler_id: hit.0, payload: hit.1, request },
            ),
        }
    }
}

/// The step after `event` came back at `stage`; `handled` is what the
/// registry made of the request, and is read only by the step that hands
/// it one; `document` is the specification document of the registry, and
/// is read only by the step that answers with it.
pub open spec fn call_resume(
    stage: StageView,
    event: CallEventView,
    handled: Result<(RouteId, Seq<u8>), ErrorView>,
    document: Seq<u8>,
) -> (StageView, CallActionView) {
    match (stage, event) {
        (StageView::AwaitLifespan(s), CallEventView::Received(Ok(_))) => (
            StageView::Closing,
            CallActionView::Send(lifespan_complete(s)),
        ),
        (StageView::AwaitLifespan(_), CallEventView::Received(Err(e))) => finish(Err(e)),
        (
            StageView::AwaitRequest(h),
            CallEventView::Received(Ok(Some(ReceiveView::HttpRequest { body }))),
        ) => route_request(request_of(h, body), handled, document),
        (StageView::AwaitRequest(_), CallEventView::Received(Ok(_))) => finish(
            Err(ErrorView::Validation("expected http.request"@)),
        ),
        (StageView::AwaitRequest(_), CallEventView::Received(Err(e))) => finish(Err(e)),
        (StageView::AwaitCallback, CallEventView::Invoked(Ok(answer))) => (
            StageView::PendingBody(answer.body),
            response_start(
                answer.status_code,
                match answer.content_type {
                    Some(t) => t,
                    None => "application/json"@,
                },
            ),
        ),
        (StageView::AwaitCallback, CallEventView::Invoked(Err(e))) => finish(Err(e)),
        (StageView::PendingBody(body), CallEventView::Sent(Ok(()))) => (
            StageView::Closing,
            CallActionView::Send(SendView::HttpResponseBody { body, more: false }),
        ),
        (StageView::PendingBody(_), CallEventView::Sent(Err(e))) => finish(Err(e)),
        (StageView::Closing, CallEventView::Sent(result)) => finish(result),
        _ => finish(Err(call_out_of_step())),
    }
}

/// True when `step` is the step after `event` came back at `stage`: the
/// step that answers with the specification document carries the document
/// of the registry's routes, under the given title and version; the step
/// that hands the registry a request goes by what the registry, with the
/// given validator, makes of it; every other step is fixed by stage and
/// event alone.
pub open spec fn is_next_step<C, V: Fn(&[u8], &serde_json::Value) -> Result<Vec<u8>, CoreError>>(
    app: AppView<C>,
    title: Seq<char>,
    version: Seq<char>,
    validate: V,
    stage: StageView,
    event: CallEventView,
    step: (StageView, CallActionView),
) -> bool {
    if specified(stage, event) {
        serves_document(app, title, version, stage, event, step)
    } else {
        match dispatched(stage, event) {
            Some(request) => goes_by_registry(app, validate, request, stage, event, step),
            None => step == steady_step(stage, event),
        }
    }
}

/// True when `step` is the step that answers with the specification
/// document of the registry's routes, under the given title and version.
pub open spec fn serves_document<C>(
    app: AppView<C>,
    title: Seq<char>,
    version: Seq<char>,
    stage: StageView,
    event: CallEventView,
    step: (StageView, CallActionView),
) -> bool {
    exists|document: Seq<u8>| #[trigger]
        describes(document, title, version, app.routes, app.next_id as nat) && step
            == call_resume(stage, event, Err(call_out_of_step()), document)
}

/// True when `step` is the step that goes by what the registry, with the
/// given validator, makes of `request`.
pub open spec fn goes_by_registry<
    C,
    V: Fn(&[u8], &serde_json::Value) -> Result<Vec<u8>, CoreError>,
>(
    app: AppView<C>,
    validate: V,
    request: RequestView,
    stage: StageView,
    event: CallEventView,
    step: (StageView, CallActionView),
) -> bool {
    exists|handled: Result<(RouteId, Seq<u8>), ErrorView>|
        #[trigger] app.handles(validate, request, handled) && step == call_resume(
            stage,
            event,
            handled,
            Seq::empty(),
        )
}

/// The step after `event` came back at `stage`, for a step that draws
/// nothing from the registry.
pub open spec fn steady_step(stage: StageView, event: CallEventView) -> (StageView, CallActionView) {
    call_resume(stage, event, Err(call_out_of_step()), Seq::empty())
}

fn start_of(status: u16, content_type: &str) -> (r: CallAction)
    ensures
        r@ == response_start(status, content_type@),
{
    let mut headers: Vec<(String, String)> = Vec::new();
    headers.push(("Content-Type".to_owned(), content_type.to_owned()));
    proof {
        assert(headers.deep_view() =~= content_type_header(content_type@));
    }
    CallAction::Send(AsgiSendMessage::HttpResponseStart { status, headers })
}

/// The application as the protocol sees it: the registry behind it is
/// passed to each step, the title and version go into the specification
/// document.
pub struct UrichAsgi {
    openapi_title: String,
    openapi_version: String,
}

impl UrichAsgi {
    /// A protocol front with the given title and version of the
    /// specification document.
    pub fn new(openapi_title: String, openapi_version: String) -> (r: Self)
        ensures
            r.title() == openapi_title@,
            r.version() == openapi_version@,
    {
        UrichAsgi { openapi_title, openapi_version }
    }

    /// The title of the specification document.
    pub closed spec fn title(&self) -> Seq<char> {
        self.openapi_title@
    }

    /// The version of the specification document.
    pub closed spec fn version(&self) -> Seq<char> {
        self.openapi_version@
    }

    /// The title of the specification document.
    pub fn openapi_title(&self) -> (r: &str)
        ensures
            r@ == self.title(),
    {
        self.openapi_title.as_str()
    }

    /// The version of the specification document.
    pub fn openapi_version(&self) -> (r: &str)
        ensures
            r@ == self.version(),
    {
        self.openapi_version.as_str()
    }

    /// The specification document of the registry's routes, under this
    /// front's title and version, as the bytes of its text.
    pub fn render_spec<C>(&self, app: &App<C>) -> (document: Vec<u8>)
        ensures
            describes(
                document@,
                self.title(),
                self.version(),
                app@.routes,
                app@.next_id as nat,
            ),
    {
        let value = app.openapi_spec(self.openapi_title.as_str(), self.openapi_version.as_str());
        json_to_vec(&value).unwrap()
    }

    /// Starts the call for one connection.
    pub fn call(&self, scope: Scope) -> (r: (CallStage, CallAction))
        ensures
            (r.0@, r.1@) == call_begin(scope@),
    {
        match scope {
            Scope::Lifespan(s) => (CallStage::AwaitLifespan(s), CallAction::Receive),
            Scope::Http(h) => (CallStage::AwaitRequest(h), CallAction::Receive),
            Scope::WebSocket(_) => (
                CallStage::Closing,
                CallAction::Send(AsgiSendMessage::WsClose { code: Some(WS_UNSUPPORTED) }),
            ),
        }
    }

    fn route_request<C, V: Fn(&[u8], &serde_json::Value) -> Result<Vec<u8>, CoreError>>(
        &self,
        app: &App<C>,
        request: RequestContext,
        validate: &V,
    ) -> (r: (CallStage, CallAction))
        requires
            forall|b: &[u8], s: &serde_json::Value| validate.requires((b, s)),
        ensures
            is_spec_path(request@.path) ==> exists|document: Seq<u8>| #[trigger]
                describes(
                    document,
                    self.title(),
                    self.version(),
                    app@.routes,
                    app@.next_id as nat,
                ) && (r.0@, r.1@) == route_request(request@, Err(call_out_of_step()), document),
            is_own_path(request@.path) && !is_spec_path(request@.path) ==> (r.0@, r.1@)
                == route_request(request@, Err(call_out_of_step()), Seq::empty()),
            !is_own_path(request@.path) ==> exists|handled: Result<(RouteId, Seq<u8>), ErrorView>|
                #[trigger] app@.handles(*validate, request@, handled) && (r.0@, r.1@)
                    == route_request(request@, handled, Seq::empty()),
    {
        let path = trim_start(request.path.as_str(), '/');
        if same_text(path, "openapi.json") {
            let document = self.render_spec(app);
            return (CallStage::PendingBody(document), start_of(200, "application/json"));
        }
        if same_text(path, "docs") {
            let page = SWAGGER_UI_HTML.as_bytes_vec();
            return (CallStage::PendingBody(page), start_of(200, "text/html"));
        }
        match app.handle_request(&request, validate) {
            Err(e) => {
                proof {
                    assert(app@.handles(*validate, request@, Err(e@)));
                }
                (CallStage::Finished, CallAction::Finish(Err(e)))
            },
            Ok(call) => {
                let handler_id = call.handler_id;
                let payload = call.payload;
                proof {
                    assert(app@.handles(*validate, request@, Ok((handler_id, payload@))));
                }
                (CallStage::AwaitCallback, CallAction::Invoke { handler_id, payload, request })
            },
        }
    }

    /// Says what to do next, given what came of the last action. A request
    /// to the path of the specification document is answered with the
    /// document of the registry's routes. The one step that asks the
    /// registry, and through it the validator, is the one that has received
    /// the body of a request to a path that is not the protocol's own.
    pub fn resume<C, V: Fn(&[u8], &serde_json::Value) -> Result<Vec<u8>, CoreError>>(
        &self,
        app: &App<C>,
        stage: CallStage,
        event: CallEvent,
        validate: &V,
    ) -> (r: (CallStage, CallAction))
        requires
            forall|b: &[u8], s: &serde_json::Value| validate.requires((b, s)),
        ensures
            is_next_step(
                app@,
                self.title(),
                self.version(),
                *validate,
                stage@,
                event@,
                (r.0@, r.1@),
            ),
    {
        let ghost stage_view = stage@;
        let ghost event_view = event@;
        match (stage, event) {
            (CallStage::AwaitLifespan(s), CallEvent::Received(Ok(_))) => {
                let done = match s {
                    LifespanScope::Startup => AsgiSendMessage::LifespanStartupComplete,
                    LifespanScope::Shutdown => AsgiSendMessage::LifespanShutdownComplete,
                };
                (CallStage::Closing, CallAction::Send(done))
            },
            (CallStage::AwaitLifespan(_), CallEvent::Received(Err(e))) => (
                CallStage::Finished,
                CallAction::Finish(Err(e)),
            ),
            (
                CallStage::AwaitRequest(h),
                CallEvent::Received(Ok(Some(AsgiReceiveMessage::HttpRequest { body }))),
            ) => {
                let request = RequestContext {
                    method: h.method,
                    path: h.path,
                    headers: h.headers,
                    body,
                };
                let ghost asked_for = request@;
                let r = self.route_request(app, request, validate);
                proof {
                    if is_spec_path(asked_for.path) {
                        let document = choose|document: Seq<u8>| #[trigger]
                            describes(
                                document,
                                self.title(),
                                self.version(),
                                app@.routes,
                                app@.next_id as nat,
                            ) && (r.0@, r.1@) == route_request(
                                asked_for,
                                Err(call_out_of_step()),
                                document,
                            );
                        assert(call_resume(
                            stage_view,
                            event_view,
                            Err(call_out_of_step()),
                            document,
                        ) == route_request(asked_for, Err(call_out_of_step()), document));
                        assert(serves_document(
                            app@,
                            self.title(),
                            self.version(),
                            stage_view,
                            event_view,
                            (r.0@, r.1@),
                        ));
                    } else if !is_own_path(asked_for.path) {
                        let handled = choose|handled: Result<(RouteId, Seq<u8>), ErrorView>|
                            #[trigger] app@.handles(*validate, asked_for, handled) && (r.0@, r.1@)
                                == route_request(asked_for, handled, Seq::empty());
                        assert(call_resume(stage_view, event_view, handled, Seq::empty())
                            == route_request(asked_for, handled, Seq::empty()));
                        assert(goes_by_registry(
                            app@,
                            *validate,
                            asked_for,
                            stage_view,
                            event_view,
                            (r.0@, r.1@),
                        ));
                    }
                }
                r
            },
            (CallStage::AwaitRequest(_), CallEvent::Received(Ok(_))) => (
                CallStage::Finished,
                CallAction::Finish(Err(CoreError::Validation("expected http.request".to_owned()))),
            ),
            (CallStage::AwaitRequest(_), CallEvent::Received(Err(e))) => (
                CallStage::Finished,
                CallAction::Finish(Err(e)),
            ),
            (CallStage::AwaitCallback, CallEvent::Invoked(Ok(answer))) => {
                let start = match &answer.content_type {
                    Some(t) => start_of(answer.status_code, t.as_str()),
                    None => start_of(answer.status_code, "application/json"),
                };
                (CallStage::PendingBody(answer.body), start)
            },
            (CallStage::AwaitCallback, CallEvent::Invoked(Err(e))) => (
                CallStage::Finished,
                CallAction::Finish(Err(e)),
            ),
            (CallStage::PendingBody(body), CallEvent::Sent(Ok(()))) => (
                CallStage::Closing,
                CallAction::Send(AsgiSendMessage::HttpResponseBody { body, more: false }),
            ),
            (CallStage::PendingBody(_), CallEvent::Sent(Err(e))) => (
                CallStage::Finished,
                CallAction::Finish(Err(e)),
            ),
            (CallStage::Closing, CallEvent::Sent(result)) => (
                CallStage::Finished,
                CallAction::Finish(result),
            ),
            _ => (
                CallStage::Finished,
                CallAction::Finish(
                    Err(CoreError::Validation("protocol event out of step".to_owned())),
                ),
            ),
        }
    }
}

/// A step that draws nothing from the registry is fixed by stage and event
/// alone: whatever the registry would make of any request, and whatever its
/// specification document holds, plays no part.
pub proof fn law_steady_steps_ask_nobody(
    stage: StageView,
    event: CallEventView,
    handled: Result<(RouteId, Seq<u8>), ErrorView>,
    document: Seq<u8>,
)
    requires
        dispatched(stage, event) is None,
        !specified(stage, event),
    ensures
        call_resume(stage, event, handled, document) == steady_step(stage, event),
{
}

/// A lifespan call takes exactly one message from the receive endpoint,
/// whatever it is, then sends exactly one message, the acknowledgement that
/// belongs to its scope, and ends. The registry is not asked.
pub proof fn law_lifespan_one_receive_one_send(
    scope: LifespanScope,
    received: Option<ReceiveView>,
    handled: Result<(RouteId, Seq<u8>), ErrorView>,
    document: Seq<u8>,
)
    ensures
        call_begin(ScopeView::Lifespan(scope)) == (
            StageView::AwaitLifespan(scope),
            CallActionView::Receive,
        ),
        dispatched(StageView::AwaitLifespan(scope), CallEventView::Received(Ok(received)))
            is None,
        !specified(StageView::AwaitLifespan(scope), CallEventView::Received(Ok(received))),
        call_resume(
            StageView::AwaitLifespan(scope),
            CallEventView::Received(Ok(received)),
            handled,
            document,
        ) == (StageView::Closing, CallActionView::Send(lifespan_complete(scope))),
        call_resume(StageView::Closing, CallEventView::Sent(Ok(())), handled, document) == finish(
            Ok(()),
        ),
{
}

/// An answer of the dispatch function goes out as exactly one response
/// start, with the answer's status, followed by exactly one response body,
/// the answer's body as the final chunk; then the call ends.
pub proof fn law_answer_is_start_then_body(
    answer: ResponseView,
    handled: Result<(RouteId, Seq<u8>), ErrorView>,
    document: Seq<u8>,
)
    ensures
        ({
            let sent = CallEventView::Sent(Ok(()));
            let (after_start, start) = call_resume(
                StageView::AwaitCallback,
                CallEventView::Invoked(Ok(answer)),
                handled,
                document,
            );
            let (after_body, body) = call_resume(after_start, sent, handled, document);
            &&& start matches CallActionView::Send(SendView::HttpResponseStart { status, .. })
                && status == answer.status_code
            &&& body == CallActionView::Send(
                SendView::HttpResponseBody { body: answer.body, more: false },
            )
            &&& call_resume(after_body, sent, handled, document) == finish(Ok(()))
        }),
{
}

/// The protocol core writes no error bodies: an error of the registry or of
/// the dispatch function ends the call with that very error, and nothing is
/// sent.
pub proof fn law_errors_go_upward(
    scope: HttpScopeView,
    body: Seq<u8>,
    e: ErrorView,
    document: Seq<u8>,
)
    requires
        !is_own_path(scope.path),
    ensures
        call_resume(
            StageView::AwaitRequest(scope),
            CallEventView::Received(Ok(Some(ReceiveView::HttpRequest { body }))),
            Err(e),
            document,
        ) == finish(Err(e)),
        call_resume(StageView::AwaitCallback, CallEventView::Invoked(Err(e)), Err(e), document)
            == finish(Err(e)),
{
}

/// A request to the specification path is answered with the specification
/// document of the registry's routes, whatever the request holds: the
/// router, the validator and the dispatch function are not asked; the
/// document goes out with status 200 as `application/json`, in one start and
/// one final body, and the call ends well.
pub proof fn law_specification_is_served<
    C,
    V: Fn(&[u8], &serde_json::Value) -> Result<Vec<u8>, CoreError>,
>(
    app: AppView<C>,
    title: Seq<char>,
    version: Seq<char>,
    validate: V,
    scope: HttpScopeView,
    body: Seq<u8>,
    step: (StageView, CallActionView),
)
    requires
        is_spec_path(scope.path),
        is_next_step(
            app,
            title,
            version,
            validate,
            StageView::AwaitRequest(scope),
            CallEventView::Received(Ok(Some(ReceiveView::HttpRequest { body }))),
            step,
        ),
    ensures
        step.1 == response_start(200, "application/json"@),
        step.0 matches StageView::PendingBody(document) && describes(
            document,
            title,
            version,
            app.routes,
            app.next_id as nat,
        ) && steady_step(step.0, CallEventView::Sent(Ok(()))) == (
            StageView::Closing,
            CallActionView::Send(SendView::HttpResponseBody { body: document, more: false }),
        ),
        steady_step(StageView::Closing, CallEventView::Sent(Ok(()))) == finish(Ok(())),
{
    let stage = StageView::AwaitRequest(scope);
    let event = CallEventView::Received(Ok(Some(ReceiveView::HttpRequest { body })));
    assert(specified(stage, event));
    assert(serves_document(app, title, version, stage, event, step));
    let document = choose|document: Seq<u8>| #[trigger]
        describes(document, title, version, app.routes, app.next_id as nat) && step
            == call_resume(stage, event, Err(call_out_of_step()), document);
    assert(step.0 == StageView::PendingBody(document));
}

/// A request to the documentation path is answered with the documentation
/// page, whatever is registered: the registry, the validator and the
/// dispatch function are not asked; the page goes out with status 200 as
/// `text/html`, in one start and one final body, and the call ends well.
pub proof fn law_documentation_is_served(
    scope: HttpScopeView,
    body: Seq<u8>,
    handled: Result<(RouteId, Seq<u8>), ErrorView>,
    document: Seq<u8>,
)
    requires
        skip_leading(scope.path, '/') == "docs"@,
    ensures
        ({
            let received = CallEventView::Received(Ok(Some(ReceiveView::HttpRequest { body })));
            let sent = CallEventView::Sent(Ok(()));
            let page = SWAGGER_UI_HTML.spec_bytes();
            &&& dispatched(StageView::AwaitRequest(scope), received) is None
            &&& !specified(StageView::AwaitRequest(scope), received)
            &&& call_resume(StageView::AwaitRequest(scope), received, handled, document) == (
                StageView::PendingBody(page),
                response_start(200, "text/html"@),
            )
            &&& call_resume(StageView::PendingBody(page), sent, handled, document) == (
                StageView::Closing,
                CallActionView::Send(SendView::HttpResponseBody { body: page, more: false }),
            )
            &&& call_resume(StageView::Closing, sent, handled, document) == finish(Ok(()))
        }),
{
    reveal_strlit("docs");
    reveal_strlit("openapi.json");
    assert("docs"@.len() != "openapi.json"@.len());
}

} // verus!
