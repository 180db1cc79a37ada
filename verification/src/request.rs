//! The canonical view of one request and of the answer to it.

use vstd::prelude::*;

verus! {

/// What middleware and handlers see of a request: method, path, headers and
/// the raw body. Built once per request.
#[derive(Clone, Debug)]
pub struct RequestContext {
    pub method: String,
    pub path: String,
    pub headers: Vec<(String, String)>,
    pub body: Vec<u8>,
}

/// The mathematical value of a [`RequestContext`].
pub ghost struct RequestView {
    pub method: Seq<char>,
    pub path: Seq<char>,
    pub headers: Seq<(Seq<char>, Seq<char>)>,
    pub body: Seq<u8>,
}

impl View for RequestContext {
    type V = RequestView;

    open spec fn view(&self) -> RequestView {
        RequestView {
            method: self.method@,
            path: self.path@,
            headers: self.headers.deep_view(),
            body: self.body@,
        }
    }
}

/// Status code, body and optional content type of an answer. Middleware may
/// return one to stop a request (a 401, say) before any handler runs.
#[derive(Clone, Debug)]
pub struct Response {
    pub status_code: u16,
    pub body: Vec<u8>,
    pub content_type: Option<String>,
}

/// The mathematical value of a [`Response`].
pub ghost struct ResponseView {
    pub status_code: u16,
    pub body: Seq<u8>,
    pub content_type: Option<Seq<char>>,
}

impl View for Response {
    type V = ResponseView;

    open spec fn view(&self) -> ResponseView {
        ResponseView {
            status_code: self.status_code,
            body: self.body@,
            content_type: match self.content_type {
                Some(t) => Some(t@),
                None => None,
            },
        }
    }
}

} // verus!
