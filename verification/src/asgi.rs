//! The application protocol's vocabulary: the scope of a connection and the
//! messages that travel through its receive and send endpoints. These are
//! the only values a transport and the application exchange.

use vstd::prelude::*;
use crate::error::CoreError;

verus! {

/// The error of a protocol call.
pub type AsgiError = CoreError;

/// The view of an optional text.
pub open spec fn text_view(t: Option<String>) -> Option<Seq<char>> {
    match t {
        Some(s) => Some(s@),
        None => None,
    }
}

/// The view of an optional byte string.
pub open spec fn bytes_view(b: Option<Vec<u8>>) -> Option<Seq<u8>> {
    match b {
        Some(v) => Some(v@),
        None => None,
    }
}

/// A lifespan event: one call of the application for each.
#[derive(Clone, Copy, Debug, PartialEq, Eq, Structural)]
pub enum LifespanScope {
    Startup,
    Shutdown,
}

/// An HTTP request without its body: method, path, headers and the raw
/// query string. The body comes through the receive endpoint.
#[derive(Clone, Debug)]
pub struct HttpScope {
    pub method: String,
    pub path: String,
    pub headers: Vec<(String, String)>,
    pub query_string: String,
}

/// A WebSocket connection: path and headers.
#[derive(Clone, Debug)]
pub struct WsScope {
    pub path: String,
    pub headers: Vec<(String, String)>,
}

/// The kind of a connection and what is known of it when it is accepted.
#[derive(Clone, Debug)]
pub enum Scope {
    Http(HttpScope),
    WebSocket(WsScope),
    Lifespan(LifespanScope),
}

/// The mathematical value of an [`HttpScope`].
pub ghost struct HttpScopeView {
    pub method: Seq<char>,
    pub path: Seq<char>,
    pub headers: Seq<(Seq<char>, Seq<char>)>,
    pub query_string: Seq<char>,
}

/// The mathematical value of a [`WsScope`].
pub ghost struct WsScopeView {
    pub path: Seq<char>,
    pub headers: Seq<(Seq<char>, Seq<char>)>,
}

/// The mathematical value of a [`Scope`].
pub ghost enum ScopeView {
    Http(HttpScopeView),
    WebSocket(WsScopeView),
    Lifespan(LifespanScope),
}

impl View for HttpScope {
    type V = HttpScopeView;

    open spec fn view(&self) -> HttpScopeView {
        HttpScopeView {
            method: self.method@,
            path: self.path@,
            headers: self.headers.deep_view(),
            query_string: self.query_string@,
        }
    }
}

impl View for WsScope {
    type V = WsScopeView;

    open spec fn view(&self) -> WsScopeView {
        WsScopeView { path: self.path@, headers: self.headers.deep_view() }
    }
}

impl View for Scope {
    type V = ScopeView;

    open spec fn view(&self) -> ScopeView {
        match self {
            Scope::Http(s) => ScopeView::Http(s@),
            Scope::WebSocket(s) => ScopeView::WebSocket(s@),
            Scope::Lifespan(s) => ScopeView::Lifespan(*s),
        }
    }
}

/// What a transport hands the application through the receive endpoint.
#[derive(Clone, Debug)]
pub enum AsgiReceiveMessage {
    /// The whole body of an HTTP request: one message per request.
    HttpRequest { body: Vec<u8> },
    /// The application is starting.
    LifespanStartup,
    /// The application is stopping.
    LifespanShutdown,
    /// A WebSocket frame arrived: text, binary data, or a close.
    WsReceive { text: Option<String>, bytes: Option<Vec<u8>>, close_code: Option<u16> },
}

/// The mathematical value of an [`AsgiReceiveMessage`].
pub ghost enum ReceiveView {
    HttpRequest { body: Seq<u8> },
    LifespanStartup,
    LifespanShutdown,
    WsReceive { text: Option<Seq<char>>, bytes: Option<Seq<u8>>, close_code: Option<u16> },
}

impl View for AsgiReceiveMessage {
    type V = ReceiveView;

    open spec fn view(&self) -> ReceiveView {
        match self {
            AsgiReceiveMessage::HttpRequest { body } => ReceiveView::HttpRequest { body: body@ },
            AsgiReceiveMessage::LifespanStartup => ReceiveView::LifespanStartup,
            AsgiReceiveMessage::LifespanShutdown => ReceiveView::LifespanShutdown,
            AsgiReceiveMessage::WsReceive { text, bytes, close_code } => ReceiveView::WsReceive {
                text: text_view(*text),
                bytes: bytes_view(*bytes),
                close_code: *close_code,
            },
        }
    }
}

/// What the application hands a transport through the send endpoint.
#[derive(Clone, Debug)]
pub enum AsgiSendMessage {
    /// The start of an HTTP response: status and headers.
    HttpResponseStart { status: u16, headers: Vec<(String, String)> },
    /// A part of the body; `more` says whether another part follows.
    HttpResponseBody { body: Vec<u8>, more: bool },
    /// Startup is done.
    LifespanStartupComplete,
    /// Shutdown is done.
    LifespanShutdownComplete,
    /// Send text or binary data over the WebSocket.
    WsSend { text: Option<String>, bytes: Option<Vec<u8>> },
    /// Close the WebSocket.
    WsClose { code: Option<u16> },
}

/// The mathematical value of an [`AsgiSendMessage`].
pub ghost enum SendView {
    HttpResponseStart { status: u16, headers: Seq<(Seq<char>, Seq<char>)> },
    HttpResponseBody { body: Seq<u8>, more: bool },
    LifespanStartupComplete,
    LifespanShutdownComplete,
    WsSend { text: Option<Seq<char>>, bytes: Option<Seq<u8>> },
    WsClose { code: Option<u16> },
}

impl View for AsgiSendMessage {
    type V = SendView;

    open spec fn view(&self) -> SendView {
        match self {
            AsgiSendMessage::HttpResponseStart { status, headers } => SendView::HttpResponseStart {
                status: *status,
                headers: headers.deep_view(),
            },
            AsgiSendMessage::HttpResponseBody { body, more } => SendView::HttpResponseBody {
                body: body@,
                more: *more,
            },
            AsgiSendMessage::LifespanStartupComplete => SendView::LifespanStartupComplete,
            AsgiSendMessage::LifespanShutdownComplete => SendView::LifespanShutdownComplete,
            AsgiSendMessage::WsSend { text, bytes } => SendView::WsSend {
                text: text_view(*text),
                bytes: bytes_view(*bytes),
            },
            AsgiSendMessage::WsClose { code } => SendView::WsClose { code: *code },
        }
    }
}

} // verus!
