//! What a transport computes around the protocol core: the endpoints that
//! feed one HTTP request in and collect its response, the scope and body
//! made of a request line, and the choice of host and port.

use vstd::prelude::*;
use crate::asgi::{
    AsgiError, AsgiReceiveMessage, AsgiSendMessage, HttpScope, HttpScopeView, ReceiveView,
    Scope, ScopeView, SendView,
};
use crate::assoc::AssocList;
use crate::error::{message_of, status_of, CoreError};
use crate::openapi::{is_object, is_text, single};
use crate::json::{
    distinct_keys, json_member, json_object, json_string, json_text, json_text_value, json_to_vec,
};
use crate::text::{
    head_of, parse_u16, parsed_u16, pieces, same_text, skip_leading, split_all, split_pair,
    stripped, tail_of, to_upper, trim_blank, trim_start, uppercased,
};

verus! {

/// The receive endpoint of an HTTP request: it yields the body once, then
/// the end of the stream.
pub struct HttpReceiveDriver {
    pub body: Vec<u8>,
    pub sent: bool,
}

impl HttpReceiveDriver {
    /// An endpoint that has the given body to yield.
    pub fn new(body: Vec<u8>) -> (r: Self)
        ensures
            r.body == body,
            !r.sent,
    {
        HttpReceiveDriver { body, sent: false }
    }

    /// The next message: the request with its body the first time, nothing
    /// from then on.
    pub fn recv(&mut self) -> (r: Result<Option<AsgiReceiveMessage>, AsgiError>)
        ensures
            final(self).sent,
            old(self).sent ==> (r matches Ok(None)) && final(self).body == old(self).body,
            !old(self).sent ==> final(self).body@ == Seq::<u8>::empty() && (r matches Ok(Some(m))
                && m@ == ReceiveView::HttpRequest { body: old(self).body@ }),
    {
        if self.sent {
            return Ok(None);
        }
        self.sent = true;
        let mut body: Vec<u8> = Vec::new();
        std::mem::swap(&mut self.body, &mut body);
        Ok(Some(AsgiReceiveMessage::HttpRequest { body }))
    }
}

/// The send endpoint of an HTTP request: it collects the start of the
/// response and the parts of its body.
pub struct HttpSendDriver {
    pub status: Option<u16>,
    pub headers: Vec<(String, String)>,
    pub body: Vec<u8>,
}

/// The status of a response whose start was never sent.
pub const STATUS_WITHOUT_START: u16 = 500;

impl HttpSendDriver {
    /// An endpoint that has collected nothing.
    pub fn new() -> (r: Self)
        ensures
            r.status is None,
            r.headers@.len() == 0,
            r.body@.len() == 0,
    {
        HttpSendDriver { status: None, headers: Vec::new(), body: Vec::new() }
    }

    /// Takes one message: a response start sets status and headers, a body
    /// part is appended to the body, any other message is dropped.
    pub fn send(&mut self, msg: AsgiSendMessage) -> (r: Result<(), AsgiError>)
        ensures
            r is Ok,
            match msg@ {
                SendView::HttpResponseStart { status, headers } => final(self).status == Some(
                    status,
                ) && final(self).headers.deep_view() == headers && final(self).body == old(
                    self,
                ).body,
                SendView::HttpResponseBody { body, .. } => final(self).status == old(self).status
                    && final(self).headers == old(self).headers && final(self).body@ == old(
                    self,
                ).body@ + body,
                _ => *final(self) == *old(self),
            },
    {
        match msg {
            AsgiSendMessage::HttpResponseStart { status, headers } => {
                self.status = Some(status);
                self.headers = headers;
            },
            AsgiSendMessage::HttpResponseBody { body, more: _ } => {
                let mut part = body;
                self.body.append(&mut part);
            },
            _ => {},
        }
        Ok(())
    }

    /// What was collected: the status (500 when no start came), the headers
    /// and the body.
    pub fn into_parts(self) -> (r: (u16, Vec<(String, String)>, Vec<u8>))
        ensures
            r.0 == (match self.status {
                Some(s) => s,
                None => STATUS_WITHOUT_START,
            }),
            r.1 == self.headers,
            r.2 == self.body,
    {
        let status = match self.status {
            Some(s) => s,
            None => STATUS_WITHOUT_START,
        };
        (status, self.headers, self.body)
    }
}

/// The receive endpoint of a lifespan call: it yields its event once.
pub struct LifespanReceiveDriver {
    pub event: Option<AsgiReceiveMessage>,
}

impl LifespanReceiveDriver {
    /// The next message: the event the first time, nothing from then on.
    pub fn recv(&mut self) -> (r: Result<Option<AsgiReceiveMessage>, AsgiError>)
        ensures
            final(self).event is None,
            r == Ok::<Option<AsgiReceiveMessage>, AsgiError>(old(self).event),
    {
        let mut event: Option<AsgiReceiveMessage> = None;
        std::mem::swap(&mut self.event, &mut event);
        Ok(event)
    }
}

/// The send endpoint of a lifespan call: it takes every message and keeps
/// none.
pub struct LifespanSendDriver;

impl LifespanSendDriver {
    /// Takes one message.
    pub fn send(&mut self, msg: AsgiSendMessage) -> (r: Result<(), AsgiError>)
        ensures
            r is Ok,
    {
        Ok(())
    }
}

/// The parameter one piece of a query string stands for: the text before
/// the first `=` as the name and the text after it as the value, both
/// without surrounding white space; no parameter when the name is empty.
pub open spec fn query_pair(piece: Seq<char>) -> Option<(Seq<char>, Seq<char>)> {
    let name = stripped(head_of(piece, '='));
    let value = match tail_of(piece, '=') {
        Some(rest) => stripped(rest),
        None => stripped(Seq::empty()),
    };
    if name.len() == 0 {
        None
    } else {
        Some((name, value))
    }
}

/// The parameters the pieces of a query string stand for; a later piece
/// replaces an earlier one with the same name.
pub open spec fn query_map(parts: Seq<Seq<char>>) -> Map<Seq<char>, Seq<char>>
    decreases parts.len(),
{
    if parts.len() == 0 {
        Map::empty()
    } else {
        let before = query_map(parts.drop_last());
        match query_pair(parts.last()) {
            Some((name, value)) => before.insert(name, value),
            None => before,
        }
    }
}

/// True when `params` holds, value for value, what `model` says.
pub open spec fn holds(params: Map<Seq<char>, String>, model: Map<Seq<char>, Seq<char>>) -> bool {
    &&& forall|name: Seq<char>| params.contains_key(name) == model.contains_key(name)
    &&& forall|name: Seq<char>| params.contains_key(name) ==> (#[trigger] params[name])@ == model[name]
}

/// The parameters of a query string `a=1&b=2`.
pub fn query_params(query: &str) -> (r: AssocList<String, String>)
    ensures
        holds(r@, query_map(pieces(query@, '&'))),
{
    let parts = split_all(query, '&');
    let mut params: AssocList<String, String> = AssocList::new();
    let mut i: usize = 0;
    proof {
        reveal_strlit("");
    }
    while i < parts.len()
        invariant
            i <= parts.len(),
            ""@ == Seq::<char>::empty(),
            holds(params@, query_map(parts.deep_view().subrange(0, i as int))),
        decreases parts.len() - i,
    {
        let (head, tail) = split_pair(parts[i].as_str(), '=');
        let name = trim_blank(head.as_str());
        let value = match &tail {
            Some(rest) => trim_blank(rest.as_str()),
            None => trim_blank(""),
        };
        proof {
            let all = parts.deep_view();
            let upto = all.subrange(0, i + 1);
            assert(upto.drop_last() == all.subrange(0, i as int));
            assert(upto.last() == parts@[i as int]@);
        }
        if !name.is_empty() {
            params.insert(name.to_owned(), value.to_owned());
        }
        i += 1;
    }
    proof {
        let all = parts.deep_view();
        assert(all.subrange(0, parts.len() as int) == all);
    }
    params
}

/// The query string inside a URL, as the request body of a `GET` is made
/// from it: what stands between the first `?` and the next.
pub open spec fn url_query(url: Seq<char>) -> Option<Seq<char>> {
    if pieces(url, '?').len() > 1 {
        Some(pieces(url, '?')[1])
    } else {
        None
    }
}

/// The parameters a request carries in its URL, when they take the place
/// of its body: the request is a `GET` and its URL has a query string.
pub open spec fn body_params(method: Seq<char>, url: Seq<char>) -> Option<Map<Seq<char>, Seq<char>>> {
    if uppercased(method) == "GET"@ {
        match url_query(url) {
            Some(query) => Some(query_map(pieces(query, '&'))),
            None => None,
        }
    } else {
        None
    }
}

/// The scope of an HTTP request: the method as it came, the path without
/// leading slashes, the headers, the raw query string or the empty text.
pub open spec fn scope_of(
    method: Seq<char>,
    path: Seq<char>,
    query: Option<Seq<char>>,
    headers: Seq<(Seq<char>, Seq<char>)>,
) -> ScopeView {
    ScopeView::Http(
        HttpScopeView {
            method,
            path: skip_leading(path, '/'),
            headers,
            query_string: match query {
                Some(q) => q,
                None => Seq::empty(),
            },
        },
    )
}

/// Makes the scope of an HTTP request and says where its body comes from:
/// for a `GET` with a query string the parameters to encode as the body,
/// for every other request nothing, and the body is the one that was read.
pub fn request_to_scope(
    method: String,
    path: &str,
    query: Option<&str>,
    headers: Vec<(String, String)>,
    url: &str,
) -> (r: (Scope, Option<AssocList<String, String>>))
    ensures
        r.0@ == scope_of(
            method@,
            path@,
            match query {
                Some(q) => Some(q@),
                None => None,
            },
            headers.deep_view(),
        ),
        match r.1 {
            Some(params) => body_params(method@, url@) matches Some(model) && holds(params@, model),
            None => body_params(method@, url@) is None,
        },
{
    let upper = to_upper(method.as_str());
    let params = if same_text(upper.as_str(), "GET") {
        let parts = split_all(url, '?');
        if parts.len() > 1 {
            Some(query_params(parts[1].as_str()))
        } else {
            None
        }
    } else {
        None
    };
    proof {
        reveal_strlit("");
        assert(""@ =~= Seq::<char>::empty());
    }
    let query_string = match query {
        Some(q) => q.to_owned(),
        None => "".to_owned(),
    };
    let scope = Scope::Http(
        HttpScope { method, path: trim_start(path, '/').to_owned(), headers, query_string },
    );
    (scope, params)
}

/// The body of a request, given the body that was read and what came of
/// encoding the URL parameters, if there were any to encode: encoded
/// parameters take the place of the body that was read, and a failed
/// encoding leaves the body empty.
pub fn settle_body(raw: Vec<u8>, encoded: Option<Result<Vec<u8>, String>>) -> (r: Vec<u8>)
    ensures
        r@ == (match encoded {
            None => raw@,
            Some(Ok(bytes)) => bytes@,
            Some(Err(_)) => Seq::empty(),
        }),
{
    match encoded {
        None => raw,
        Some(Ok(bytes)) => bytes,
        Some(Err(_)) => Vec::new(),
    }
}

/// The texts a map of parameters holds.
pub open spec fn texts(params: Map<Seq<char>, String>) -> Map<Seq<char>, Seq<char>> {
    Map::new(|name: Seq<char>| params.contains_key(name), |name: Seq<char>| params[name]@)
}

/// True when `doc` is the content of a JSON object that has each parameter
/// of `model` as a string member under its name, and no other member.
pub open spec fn is_params_object(doc: Seq<u8>, model: Map<Seq<char>, Seq<char>>) -> bool {
    forall|name: Seq<char>|
        match #[trigger] json_member(doc, name) {
            Some(member) => model.contains_key(name) && json_string(member) == Some(model[name]),
            None => !model.contains_key(name),
        }
}

/// The JSON object of a map of parameters: one string member per
/// parameter.
pub fn params_value(params: AssocList<String, String>) -> (r: serde_json::Value)
    ensures
        is_params_object(json_text(r), texts(params@)),
{
    let ghost model = texts(params@);
    let mut rest = params;
    let mut entries: Vec<(String, serde_json::Value)> = Vec::new();
    let mut next = rest.pop();
    while next.is_some()
        invariant
            distinct_keys(entries@),
            forall|i: int|
                0 <= i < entries.len() ==> {
                    &&& !rest@.contains_key((#[trigger] entries@[i]).0@)
                    &&& model.contains_key(entries@[i].0@)
                    &&& json_string(json_text(entries@[i].1)) == Some(model[entries@[i].0@])
                    &&& next matches Some(entry) ==> entry.0@ != entries@[i].0@
                },
            forall|name: Seq<char>| #[trigger]
                rest@.contains_key(name) ==> model.contains_key(name) && rest@[name]@
                    == model[name],
            next matches Some(entry) ==> !rest@.contains_key(entry.0@) && model.contains_key(
                entry.0@,
            ) && entry.1@ == model[entry.0@],
            next is None ==> rest@ == Map::<Seq<char>, String>::empty(),
            forall|name: Seq<char>| #[trigger]
                model.contains_key(name) ==> rest@.contains_key(name) || (next matches Some(entry)
                    && entry.0@ == name) || (exists|i: int|
                    0 <= i < entries.len() && (#[trigger] entries@[i]).0@ == name),
        decreases rest.size() + (if next is Some { 1nat } else { 0nat }),
    {
        let ghost before = entries@;
        let (name, value) = next.unwrap();
        let member = json_text_value(value.as_str());
        let ghost key = name@;
        entries.push((name, member));
        let ghost held = rest@;
        next = rest.pop();
        proof {
            assert forall|n: Seq<char>| #[trigger] rest@.contains_key(n) implies model.contains_key(
                n,
            ) && rest@[n]@ == model[n] by {
                assert(held.contains_key(n));
            }
            assert forall|n: Seq<char>| #[trigger] model.contains_key(n) implies rest@.contains_key(n)
                || (next matches Some(entry) && entry.0@ == n) || (exists|i: int|
                0 <= i < entries.len() && (#[trigger] entries@[i]).0@ == n) by {
                if n == key {
                    assert(entries@[before.len() as int].0@ == n);
                } else if exists|i: int| 0 <= i < before.len() && (#[trigger] before[i]).0@ == n {
                    let i = choose|i: int| 0 <= i < before.len() && (#[trigger] before[i]).0@ == n;
                    assert(entries@[i].0@ == n);
                }
            }
        }
    }
    let object = json_object(entries);
    proof {
        assert forall|name: Seq<char>|
            match #[trigger] json_member(json_text(object), name) {
                Some(member) => model.contains_key(name) && json_string(member) == Some(
                    model[name],
                ),
                None => !model.contains_key(name),
            } by {
            if exists|i: int| 0 <= i < entries.len() && (#[trigger] entries@[i]).0@ == name {
                let i = choose|i: int| 0 <= i < entries.len() && (#[trigger] entries@[i]).0@ == name;
                assert(json_member(json_text(object), entries@[i].0@) == Some(
                    json_text(entries@[i].1),
                ));
            } else {
                assert(forall|i: int|
                    0 <= i < entries.len() ==> (#[trigger] entries@[i]).0@ != name);
            }
        }
    }
    object
}

/// Makes the scope and the body of an HTTP request. The body is the one
/// that was read, except for a `GET` with a query string: there the body is
/// the JSON object of the parameters.
pub fn request_to_scope_and_body(
    method: String,
    path: &str,
    query: Option<&str>,
    headers: Vec<(String, String)>,
    url: &str,
    raw_body: Vec<u8>,
) -> (r: (Scope, Vec<u8>))
    ensures
        r.0@ == scope_of(
            method@,
            path@,
            match query {
                Some(q) => Some(q@),
                None => None,
            },
            headers.deep_view(),
        ),
        match body_params(method@, url@) {
            None => r.1@ == raw_body@,
            Some(model) => is_params_object(r.1@, model),
        },
{
    let (scope, params) = request_to_scope(method, path, query, headers, url);
    let body = match params {
        None => raw_body,
        Some(found) => {
            proof {
                assert(texts(found@) =~= body_params(method@, url@).unwrap());
            }
            let object = params_value(found);
            settle_body(raw_body, Some(json_to_vec(&object)))
        },
    };
    (scope, body)
}

/// True when `body` is the content of the document an error is reported
/// with: `{"error": <message>}`.
pub open spec fn is_error_body(body: Seq<u8>, message: Seq<char>) -> bool {
    exists|text: Seq<u8>| #[trigger] is_text(text, message) && is_object(body, map!["error"@ => text])
}

/// The wire form of an error: its status, and the document that carries
/// its message.
pub fn error_response(e: &CoreError) -> (r: (u16, Vec<u8>))
    ensures
        r.0 == status_of(e@),
        is_error_body(r.1@, message_of(e@)),
{
    let message = e.message();
    let text = json_text_value(message.as_str());
    let ghost shown = json_text(text);
    let document = single("error", text);
    let body = match json_to_vec(&document) {
        Ok(bytes) => {
            proof {
                assert(is_text(shown, message_of(e@)));
            }
            bytes
        },
        Err(_) => Vec::new(),
    };
    (e.status_code(), body)
}

/// The port a text from the environment stands for, or the default.
pub open spec fn port_or(text: Option<Seq<char>>, default_port: u16) -> u16 {
    match text {
        Some(t) => match parsed_u16(t) {
            Some(p) => p,
            None => default_port,
        },
        None => default_port,
    }
}

/// Host and port after the arguments from index `i` on have been read:
/// `--host` and `--port`, each followed by its value, replace what was
/// chosen before; a `--port` whose value is no port number changes nothing;
/// a flag without a value and every other argument is passed over.
pub open spec fn scan_args(args: Seq<Seq<char>>, i: int, host: Seq<char>, port: u16) -> (
    Seq<char>,
    u16,
)
    decreases args.len() - i,
{
    if i < 0 || i >= args.len() {
        (host, port)
    } else if args[i] == "--host"@ && i + 1 < args.len() {
        scan_args(args, i + 2, args[i + 1], port)
    } else if args[i] == "--port"@ && i + 1 < args.len() {
        scan_args(
            args,
            i + 2,
            host,
            match parsed_u16(args[i + 1]) {
                Some(p) => p,
                None => port,
            },
        )
    } else {
        scan_args(args, i + 1, host, port)
    }
}

/// Chooses host and port: the defaults, replaced by the values from the
/// environment where there are any, replaced in turn by `--host` and
/// `--port` among the arguments. The first argument is the program's name
/// and is not read.
pub fn host_port_from_env_and_args(
    env_host: Option<String>,
    env_port: Option<String>,
    args: &Vec<String>,
    default_host: &str,
    default_port: u16,
) -> (r: (String, u16))
    ensures
        (r.0@, r.1) == scan_args(
            args.deep_view(),
            1,
            match env_host {
                Some(h) => h@,
                None => default_host@,
            },
            port_or(
                match env_port {
                    Some(p) => Some(p@),
                    None => None,
                },
                default_port,
            ),
        ),
{
    let mut host = match env_host {
        Some(h) => h,
        None => default_host.to_owned(),
    };
    let mut port = match &env_port {
        Some(text) => match parse_u16(text.as_str()) {
            Some(p) => p,
            None => default_port,
        },
        None => default_port,
    };
    let ghost all = args.deep_view();
    let ghost want = scan_args(all, 1, host@, port);
    let mut i: usize = 1;
    while i < args.len()
        invariant
            1 <= i,
            all == args.deep_view(),
            scan_args(all, i as int, host@, port) == want,
        decreases args.len() - i,
    {
        assert(all[i as int] == args@[i as int]@);
        if i + 1 < args.len() {
            assert(all[i + 1] == args@[i + 1]@);
            if same_text(args[i].as_str(), "--host") {
                host = args[i + 1].clone();
                i += 2;
                continue ;
            }
            if same_text(args[i].as_str(), "--port") {
                match parse_u16(args[i + 1].as_str()) {
                    Some(p) => {
                        port = p;
                    },
                    None => {},
                }
                i += 2;
                continue ;
            }
        }
        i += 1;
    }
    (host, port)
}

} // verus!
