//! The specification document of the registered routes: an OpenAPI object
//! with one entry per path, and under each path one operation per method.

use vstd::prelude::*;
use crate::assoc::AssocList;
use crate::json::{
    contents_of, distinct_keys, json_array, json_clone, json_items, json_member, json_object,
    json_string, json_text, json_text_value,
};
use crate::registry::{operation_of, App, OperationView, Route, RouteView};
use crate::router::RouteId;
use crate::text::{join, to_lower, trim_start};

verus! {

/// The contents of the values of a map.
pub open spec fn member_texts(members: Map<Seq<char>, serde_json::Value>) -> Map<
    Seq<char>,
    Seq<u8>,
> {
    Map::new(|name: Seq<char>| members.contains_key(name), |name: Seq<char>| json_text(members[name]))
}

/// True when `doc` is the content of a JSON object whose members are those
/// of `members`, each with the content given, and no others.
pub open spec fn is_object(doc: Seq<u8>, members: Map<Seq<char>, Seq<u8>>) -> bool {
    forall|name: Seq<char>|
        #[trigger] json_member(doc, name) == if members.contains_key(name) {
            Some(members[name])
        } else {
            None::<Seq<u8>>
        }
}

/// The JSON object of a map of values: one member per entry.
pub fn object_of(members: AssocList<String, serde_json::Value>) -> (r: serde_json::Value)
    ensures
        is_object(json_text(r), member_texts(members@)),
{
    let ghost model = member_texts(members@);
    let mut rest = members;
    let mut entries: Vec<(String, serde_json::Value)> = Vec::new();
    let mut next = rest.pop();
    while next.is_some()
        invariant
            distinct_keys(entries@),
            forall|i: int|
                0 <= i < entries.len() ==> {
                    &&& !rest@.contains_key((#[trigger] entries@[i]).0@)
                    &&& model.contains_key(entries@[i].0@)
                    &&& json_text(entries@[i].1) == model[entries@[i].0@]
                    &&& next matches Some(entry) ==> entry.0@ != entries@[i].0@
                },
            forall|name: Seq<char>| #[trigger]
                rest@.contains_key(name) ==> model.contains_key(name) && json_text(rest@[name])
                    == model[name],
            next matches Some(entry) ==> !rest@.contains_key(entry.0@) && model.contains_key(
                entry.0@,
            ) && json_text(entry.1) == model[entry.0@],
            next is None ==> rest@ == Map::<Seq<char>, serde_json::Value>::empty(),
            forall|name: Seq<char>| #[trigger]
                model.contains_key(name) ==> rest@.contains_key(name) || (next matches Some(entry)
                    && entry.0@ == name) || (exists|i: int|
                    0 <= i < entries.len() && (#[trigger] entries@[i]).0@ == name),
        decreases rest.size() + (if next is Some { 1nat } else { 0nat }),
    {
        let ghost before = entries@;
        let (name, value) = next.unwrap();
        let ghost key = name@;
        entries.push((name, value));
        let ghost held = rest@;
        next = rest.pop();
        proof {
            assert forall|n: Seq<char>| #[trigger] rest@.contains_key(n) implies model.contains_key(
                n,
            ) && json_text(rest@[n]) == model[n] by {
                assert(held.contains_key(n));
            }
            assert forall|n: Seq<char>| #[trigger] model.contains_key(n) implies rest@.contains_key(n)
                || (next matches Some(entry) && entry.0@ == n) || (exists|i: int|
                0 <= i < entries.len() && (#[trigger] entries@[i]).0@ == n) by {
                if n == key {
                    assert(entries@[before.len() as int].0@ == n);
                } else if exists|i: int| 0 <= i < before.len() && (#[trigger] before[i]).0@ == n {
                    let i = choose|i: int| 0 <= i < before.len() && (#[trigger] before[i]).0@ == n;
                    assert(entries@[i].0@ == n);
                }
            }
        }
    }
    let object = json_object(entries);
    proof {
        assert forall|name: Seq<char>|
            #[trigger] json_member(json_text(object), name) == if model.contains_key(name) {
                Some(model[name])
            } else {
                None::<Seq<u8>>
            } by {
            if exists|i: int| 0 <= i < entries.len() && (#[trigger] entries@[i]).0@ == name {
                let i = choose|i: int| 0 <= i < entries.len() && (#[trigger] entries@[i]).0@ == name;
                assert(json_member(json_text(object), entries@[i].0@) == Some(
                    json_text(entries@[i].1),
                ));
            } else {
                assert(forall|i: int|
                    0 <= i < entries.len() ==> (#[trigger] entries@[i]).0@ != name);
            }
        }
    }
    object
}

/// True when `doc` is the content of a JSON string that holds `s`.
pub open spec fn is_text(doc: Seq<u8>, s: Seq<char>) -> bool {
    json_string(doc) == Some(s)
}

/// True when `doc` is the content of the tags of an operation: an array
/// with the tag as its only item, or the empty array.
pub open spec fn is_tags(doc: Seq<u8>, tag: Option<Seq<char>>) -> bool {
    json_items(doc) matches Some(items) && match tag {
        Some(t) => items.len() == 1 && is_text(items[0], t),
        None => items.len() == 0,
    }
}

/// True when `doc` is the content of a request body with the given schema:
/// `{"content": {"application/json": {"schema": ..}}}`.
pub open spec fn is_request_body(doc: Seq<u8>, schema: Seq<u8>) -> bool {
    exists|content: Seq<u8>, media: Seq<u8>|
        {
            &&& #[trigger] is_object(doc, map!["content"@ => content])
            &&& #[trigger] is_object(content, map!["application/json"@ => media])
            &&& is_object(media, map!["schema"@ => schema])
        }
}

/// True when `body` is the content of the request body that belongs to a
/// route with the given schema; a route without a schema has none.
pub open spec fn is_body_of(body: Seq<u8>, schema: Option<serde_json::Value>) -> bool {
    match schema {
        Some(s) => is_request_body(body, json_text(s)),
        None => true,
    }
}

/// The members of an operation: its tags, and its request body when it has
/// one.
pub open spec fn operation_members(tags: Seq<u8>, body: Seq<u8>, has_body: bool) -> Map<
    Seq<char>,
    Seq<u8>,
> {
    if has_body {
        map!["tags"@ => tags, "requestBody"@ => body]
    } else {
        map!["tags"@ => tags]
    }
}

/// True when `doc` is the content of the operation `op`: its tags, and its
/// request body when the route has a schema.
pub open spec fn is_operation(doc: Seq<u8>, op: OperationView) -> bool {
    exists|tags: Seq<u8>, body: Seq<u8>|
        #![trigger is_tags(tags, op.tag), is_body_of(body, op.request_schema)]
        {
            &&& is_tags(tags, op.tag)
            &&& is_body_of(body, op.request_schema)
            &&& is_object(doc, operation_members(tags, body, op.request_schema is Some))
        }
}

/// True when `doc` is the content of the document's `info`.
pub open spec fn is_info(doc: Seq<u8>, title: Seq<char>, version: Seq<char>) -> bool {
    exists|t: Seq<u8>, v: Seq<u8>|
        {
            &&& #[trigger] is_text(t, title)
            &&& #[trigger] is_text(v, version)
            &&& is_object(doc, map!["title"@ => t, "version"@ => v])
        }
}

/// True when `doc` is the content of a specification document with the
/// given title and version whose `paths` has the content `paths`.
pub open spec fn is_document(doc: Seq<u8>, title: Seq<char>, version: Seq<char>, paths: Seq<u8>) -> bool {
    exists|openapi: Seq<u8>, info: Seq<u8>|
        {
            &&& #[trigger] is_text(openapi, "3.0.0"@)
            &&& #[trigger] is_info(info, title, version)
            &&& is_object(doc, map!["openapi"@ => openapi, "info"@ => info, "paths"@ => paths])
        }
}

/// The JSON object with one member.
pub fn single(key: &str, value: serde_json::Value) -> (r: serde_json::Value)
    ensures
        is_object(json_text(r), map![key@ => json_text(value)]),
{
    let mut members: AssocList<String, serde_json::Value> = AssocList::new();
    members.insert(key.to_owned(), value);
    proof {
        assert(member_texts(members@) =~= map![key@ => json_text(value)]);
    }
    object_of(members)
}

/// The JSON object with two members.
fn pair(first: &str, a: serde_json::Value, second: &str, b: serde_json::Value) -> (r:
    serde_json::Value)
    ensures
        is_object(json_text(r), map![first@ => json_text(a), second@ => json_text(b)]),
{
    let mut members: AssocList<String, serde_json::Value> = AssocList::new();
    members.insert(first.to_owned(), a);
    members.insert(second.to_owned(), b);
    proof {
        assert(member_texts(members@) =~= map![first@ => json_text(a), second@ => json_text(b)]);
    }
    object_of(members)
}

/// The operation that describes a route, as a JSON value.
pub fn operation_value(route: &Route) -> (r: serde_json::Value)
    ensures
        is_operation(json_text(r), operation_of(route@)),
{
    let mut items: Vec<serde_json::Value> = Vec::new();
    match &route.openapi_tag {
        Some(tag) => {
            items.push(json_text_value(tag.as_str()));
        },
        None => {},
    }
    let ghost listed = contents_of(items@);
    let tags = json_array(items);
    proof {
        assert(is_tags(json_text(tags), operation_of(route@).tag));
    }
    let ghost tags_text = json_text(tags);
    match &route.request_schema {
        None => {
            proof {
                assert(is_body_of(tags_text, operation_of(route@).request_schema));
            }
            single("tags", tags)
        },
        Some(schema) => {
            let media = single("schema", json_clone(schema));
            let ghost media_text = json_text(media);
            let content = single("application/json", media);
            let ghost content_text = json_text(content);
            let body = single("content", content);
            proof {
                assert(is_object(json_text(body), map!["content"@ => content_text]));
                assert(is_object(content_text, map!["application/json"@ => media_text]));
                assert(is_request_body(json_text(body), json_text(*schema)));
                assert(is_body_of(json_text(body), operation_of(route@).request_schema));
            }
            pair("tags", tags, "requestBody", body)
        },
    }
}

/// True when two routes have the same place in the document: the same path
/// and the same method.
pub open spec fn same_place(a: RouteView, b: RouteView) -> bool {
    operation_of(a).path == operation_of(b).path && operation_of(a).method == operation_of(
        b,
    ).method
}

/// True when the route with the handle `n` is the last one registered at
/// its place among the handles below `limit`: the one the document shows.
pub open spec fn is_last_for(routes: Map<u32, RouteView>, limit: nat, n: u32) -> bool {
    &&& routes.contains_key(n)
    &&& n < limit
    &&& forall|m: u32|
        n < m && m < limit && #[trigger] routes.contains_key(m) ==> !same_place(
            routes[m],
            routes[n],
        )
}

/// The place of a route in the document.
pub open spec fn place_of(route: RouteView) -> (Seq<char>, Seq<char>) {
    (operation_of(route).path, operation_of(route).method)
}

/// True when `found` is the content of the operation of the route `n`,
/// which is the last one registered at the place `place`.
pub open spec fn shows(
    routes: Map<u32, RouteView>,
    limit: nat,
    n: u32,
    place: (Seq<char>, Seq<char>),
    found: Option<Seq<u8>>,
) -> bool {
    &&& is_last_for(routes, limit, n)
    &&& place_of(routes[n]) == place
    &&& found matches Some(text) && is_operation(text, operation_of(routes[n]))
}

/// What a table of operations holds at a place.
pub open spec fn entry_at(
    table: Map<Seq<char>, Map<Seq<char>, Seq<u8>>>,
    place: (Seq<char>, Seq<char>),
) -> Option<Seq<u8>> {
    if table.contains_key(place.0) && table[place.0].contains_key(place.1) {
        Some(table[place.0][place.1])
    } else {
        None
    }
}

/// True when the table holds at least one method under the path.
pub open spec fn has_method(table: Map<Seq<char>, Map<Seq<char>, Seq<u8>>>, path: Seq<char>) -> bool {
    exists|method: Seq<char>| #[trigger] table[path].contains_key(method)
}

/// True when a table of operations, by path and method, shows exactly the
/// routes below `limit`: at every place where a route is registered the
/// operation of the last one registered there, nothing elsewhere, and no
/// path without a method.
pub open spec fn table_describes(
    table: Map<Seq<char>, Map<Seq<char>, Seq<u8>>>,
    routes: Map<u32, RouteView>,
    limit: nat,
) -> bool {
    &&& forall|path: Seq<char>| #[trigger] table.contains_key(path) ==> has_method(table, path)
    &&& forall|place: (Seq<char>, Seq<char>)| #[trigger]
        entry_at(table, place) is Some ==> exists|n: u32| #[trigger]
            shows(routes, limit, n, place, entry_at(table, place))
    &&& forall|n: u32| #[trigger]
        is_last_for(routes, limit, n) ==> shows(
            routes,
            limit,
            n,
            place_of(routes[n]),
            entry_at(table, place_of(routes[n])),
        )
}

/// True when `doc` is the content of the `paths` of a document that holds
/// the table: one member per path, an object with one member per method.
pub open spec fn is_paths(doc: Seq<u8>, table: Map<Seq<char>, Map<Seq<char>, Seq<u8>>>) -> bool {
    exists|per_path: Map<Seq<char>, Seq<u8>>|
        {
            &&& #[trigger] is_object(doc, per_path)
            &&& per_path.dom() == table.dom()
            &&& forall|p: Seq<char>| #[trigger]
                table.contains_key(p) ==> is_object(per_path[p], table[p])
        }
}

/// True when `doc` is the content of the specification document of the
/// routes below `limit`, with the given title and version.
pub open spec fn describes(
    doc: Seq<u8>,
    title: Seq<char>,
    version: Seq<char>,
    routes: Map<u32, RouteView>,
    limit: nat,
) -> bool {
    exists|table: Map<Seq<char>, Map<Seq<char>, Seq<u8>>>, paths: Seq<u8>|
        {
            &&& table_describes(table, routes, limit)
            &&& #[trigger] is_paths(paths, table)
            &&& is_document(doc, title, version, paths)
        }
}

/// The table a grouping of operation values stands for.
pub open spec fn table_of(
    groups: Map<Seq<char>, AssocList<String, serde_json::Value>>,
) -> Map<Seq<char>, Map<Seq<char>, Seq<u8>>> {
    Map::new(|p: Seq<char>| groups.contains_key(p), |p: Seq<char>| member_texts(groups[p]@))
}

proof fn lemma_last_for_step(routes: Map<u32, RouteView>, limit: nat, n: u32)
    requires
        n < limit,
        limit <= u32::MAX,
    ensures
        is_last_for(routes, limit + 1, n) <==> is_last_for(routes, limit, n) && !(
        routes.contains_key(limit as u32) && same_place(routes[limit as u32], routes[n])),
{
    if is_last_for(routes, limit, n) && !(routes.contains_key(limit as u32) && same_place(
        routes[limit as u32],
        routes[n],
    )) {
        assert forall|m: u32|
            n < m && m < limit + 1 && #[trigger] routes.contains_key(m) implies !same_place(
            routes[m],
            routes[n],
        ) by {}
    }
    if is_last_for(routes, limit + 1, n) {
        assert forall|m: u32| n < m && m < limit && #[trigger] routes.contains_key(m) implies !same_place(
            routes[m],
            routes[n],
        ) by {}
        if routes.contains_key(limit as u32) {
            assert(!same_place(routes[limit as u32], routes[n]));
        }
    }
}

proof fn lemma_some_route_is_last(routes: Map<u32, RouteView>, limit: nat, n: u32) -> (k: u32)
    requires
        routes.contains_key(n),
        n < limit,
    ensures
        is_last_for(routes, limit, k),
        place_of(routes[k]) == place_of(routes[n]),
    decreases limit - n,
{
    if is_last_for(routes, limit, n) {
        n
    } else {
        let m = choose|m: u32|
            n < m && m < limit && #[trigger] routes.contains_key(m) && same_place(
                routes[m],
                routes[n],
            );
        lemma_some_route_is_last(routes, limit, m)
    }
}

/// The places of a table that shows the routes below `limit` are exactly
/// the places of those routes: it holds an operation under a path and a
/// method exactly when a route is registered there, and it holds a path
/// exactly when a route is registered under it.
pub proof fn law_document_places_are_route_places(
    table: Map<Seq<char>, Map<Seq<char>, Seq<u8>>>,
    routes: Map<u32, RouteView>,
    limit: nat,
    place: (Seq<char>, Seq<char>),
)
    requires
        table_describes(table, routes, limit),
    ensures
        entry_at(table, place) is Some <==> exists|n: u32|
            n < limit && #[trigger] routes.contains_key(n) && place_of(routes[n]) == place,
        table.contains_key(place.0) <==> exists|n: u32|
            n < limit && #[trigger] routes.contains_key(n) && place_of(routes[n]).0 == place.0,
{
    if entry_at(table, place) is Some {
        let n = choose|n: u32| #[trigger] shows(routes, limit, n, place, entry_at(table, place));
        assert(routes.contains_key(n) && n < limit && place_of(routes[n]) == place);
    }
    if exists|n: u32|
        n < limit && #[trigger] routes.contains_key(n) && place_of(routes[n]) == place {
        let n = choose|n: u32|
            n < limit && #[trigger] routes.contains_key(n) && place_of(routes[n]) == place;
        let k = lemma_some_route_is_last(routes, limit, n);
        assert(shows(routes, limit, k, place, entry_at(table, place)));
    }
    if table.contains_key(place.0) {
        assert(has_method(table, place.0));
        let m = choose|m: Seq<char>| #[trigger] table[place.0].contains_key(m);
        let at = (place.0, m);
        assert(entry_at(table, at) is Some);
        let n = choose|n: u32| #[trigger] shows(routes, limit, n, at, entry_at(table, at));
        assert(routes.contains_key(n) && n < limit && place_of(routes[n]).0 == place.0);
    }
    if exists|n: u32|
        n < limit && #[trigger] routes.contains_key(n) && place_of(routes[n]).0 == place.0 {
        let n = choose|n: u32|
            n < limit && #[trigger] routes.contains_key(n) && place_of(routes[n]).0 == place.0;
        let k = lemma_some_route_is_last(routes, limit, n);
        assert(shows(
            routes,
            limit,
            k,
            place_of(routes[k]),
            entry_at(table, place_of(routes[k])),
        ));
    }
}

impl<C> App<C> {
    /// The specification document of the registered routes: `openapi` is
    /// `3.0.0`, `info` holds title and version, and `paths` holds, for each
    /// path with its leading slash and each method in lower case, the
    /// operation of the route registered there last. RPC methods and event
    /// subscriptions have no route and do not appear.
    pub fn openapi_spec(&self, title: &str, version: &str) -> (r: serde_json::Value)
        ensures
            describes(json_text(r), title@, version@, self@.routes, self@.next_id as nat),
    {
        let ghost routes = self@.routes;
        let limit = self.next_route_id();
        let mut groups: AssocList<String, AssocList<String, serde_json::Value>> = AssocList::new();
        let ghost mut last: Map<(Seq<char>, Seq<char>), u32> = Map::empty();
        let mut n: u32 = 0;
        while n < limit
            invariant
                n <= limit,
                limit == self@.next_id,
                routes == self@.routes,
                forall|place: (Seq<char>, Seq<char>)| #[trigger]
                    entry_at(table_of(groups@), place) is Some <==> last.contains_key(place),
                forall|place: (Seq<char>, Seq<char>)| #[trigger]
                    last.contains_key(place) ==> shows(
                        routes,
                        n as nat,
                        last[place],
                        place,
                        entry_at(table_of(groups@), place),
                    ),
                forall|k: u32| #[trigger]
                    is_last_for(routes, n as nat, k) ==> last.contains_key(place_of(routes[k]))
                        && last[place_of(routes[k])] == k,
                forall|path: Seq<char>| #[trigger]
                    table_of(groups@).contains_key(path) ==> has_method(table_of(groups@), path),
            decreases limit - n,
        {
            let ghost before = table_of(groups@);
            let ghost known = last;
            let ghost reached = (n + 1) as nat;
            match self.route(RouteId(n)) {
                Some(route) => {
                    let path = join("/", trim_start(route.path.as_str(), '/'));
                    let method = to_lower(route.method.as_str());
                    let value = operation_value(route);
                    let ghost here = (path@, method@);
                    let ghost text = json_text(value);
                    let mut group = match groups.remove(&path) {
                        Some(found) => found,
                        None => AssocList::new(),
                    };
                    group.insert(method, value);
                    groups.insert(path, group);
                    proof {
                        last = last.insert(here, n);
                        assert(here == place_of(routes[n]));
                        assert forall|place: (Seq<char>, Seq<char>)|
                            #[trigger] entry_at(table_of(groups@), place) == if place == here {
                                Some(text)
                            } else {
                                entry_at(before, place)
                            } by {
                            if place.0 == here.0 {
                                assert(table_of(groups@)[place.0] =~= (if before.contains_key(
                                    place.0,
                                ) {
                                    before[place.0].insert(here.1, text)
                                } else {
                                    Map::<Seq<char>, Seq<u8>>::empty().insert(here.1, text)
                                }));
                            } else {
                                assert(groups@.contains_key(place.0) ==> table_of(
                                    groups@,
                                )[place.0] == before[place.0]);
                            }
                        }
                        assert forall|other: Seq<char>| #[trigger]
                            table_of(groups@).contains_key(other) implies has_method(
                            table_of(groups@),
                            other,
                        ) by {
                            if other == here.0 {
                                assert(entry_at(table_of(groups@), here) is Some);
                                assert(table_of(groups@)[other].contains_key(here.1));
                            } else {
                                assert(before.contains_key(other));
                                assert(has_method(before, other));
                                let m = choose|m: Seq<char>| #[trigger]
                                    before[other].contains_key(m);
                                assert(entry_at(before, (other, m)) is Some);
                                assert(entry_at(table_of(groups@), (other, m)) is Some);
                                assert(table_of(groups@)[other].contains_key(m));
                            }
                        }
                        assert forall|place: (Seq<char>, Seq<char>)| #[trigger]
                            last.contains_key(place) implies shows(
                            routes,
                            reached,
                            last[place],
                            place,
                            entry_at(table_of(groups@), place),
                        ) by {
                            if place == here {
                                assert(is_last_for(routes, reached, n));
                            } else {
                                assert(known.contains_key(place));
                                assert(shows(
                                    routes,
                                    n as nat,
                                    known[place],
                                    place,
                                    entry_at(before, place),
                                ));
                                lemma_last_for_step(routes, n as nat, known[place]);
                            }
                        }
                        assert forall|k: u32| #[trigger]
                            is_last_for(routes, reached, k) implies last.contains_key(
                            place_of(routes[k]),
                        ) && last[place_of(routes[k])] == k by {
                            if k != n {
                                lemma_last_for_step(routes, n as nat, k);
                                assert(is_last_for(routes, n as nat, k));
                            }
                        }
                    }
                },
                None => {
                    proof {
                        assert forall|place: (Seq<char>, Seq<char>)| #[trigger]
                            last.contains_key(place) implies shows(
                            routes,
                            reached,
                            last[place],
                            place,
                            entry_at(table_of(groups@), place),
                        ) by {
                            lemma_last_for_step(routes, n as nat, last[place]);
                        }
                        assert forall|k: u32| #[trigger]
                            is_last_for(routes, reached, k) implies last.contains_key(
                            place_of(routes[k]),
                        ) && last[place_of(routes[k])] == k by {
                            lemma_last_for_step(routes, n as nat, k);
                        }
                    }
                },
            }
            n = n + 1;
            proof {
                assert(n as nat == reached);
            }
        }
        let ghost table = table_of(groups@);
        proof {
            assert forall|place: (Seq<char>, Seq<char>)| #[trigger]
                entry_at(table, place) is Some implies exists|k: u32| #[trigger]
                shows(routes, limit as nat, k, place, entry_at(table, place)) by {
                assert(last.contains_key(place));
                assert(shows(routes, limit as nat, last[place], place, entry_at(table, place)));
            }
            assert forall|k: u32| #[trigger] is_last_for(routes, limit as nat, k) implies shows(
                routes,
                limit as nat,
                k,
                place_of(routes[k]),
                entry_at(table, place_of(routes[k])),
            ) by {
                assert(last.contains_key(place_of(routes[k])));
            }
            assert(table_describes(table, routes, limit as nat));
        }
        let mut per_path: AssocList<String, serde_json::Value> = AssocList::new();
        let mut next = groups.pop();
        while next.is_some()
            invariant
                forall|p: Seq<char>| #[trigger]
                    per_path@.contains_key(p) ==> table.contains_key(p) && is_object(
                        json_text(per_path@[p]),
                        table[p],
                    ) && !groups@.contains_key(p) && (next matches Some(entry) ==> entry.0@ != p),
                forall|p: Seq<char>| #[trigger]
                    groups@.contains_key(p) ==> table.contains_key(p) && member_texts(groups@[p]@)
                        == table[p],
                next matches Some(entry) ==> !groups@.contains_key(entry.0@) && table.contains_key(
                    entry.0@,
                ) && member_texts(entry.1@) == table[entry.0@],
                next is None ==> groups@ == Map::<
                    Seq<char>,
                    AssocList<String, serde_json::Value>,
                >::empty(),
                forall|p: Seq<char>| #[trigger]
                    table.contains_key(p) ==> groups@.contains_key(p) || per_path@.contains_key(p)
                        || (next matches Some(entry) && entry.0@ == p),
            decreases groups.size() + (if next is Some { 1nat } else { 0nat }),
        {
            let (path, group) = next.unwrap();
            let ghost held = groups@;
            let ghost done = per_path@;
            let ghost key = path@;
            let object = object_of(group);
            per_path.insert(path, object);
            next = groups.pop();
            proof {
                assert forall|p: Seq<char>| #[trigger] groups@.contains_key(p) implies table.contains_key(
                    p,
                ) && member_texts(groups@[p]@) == table[p] by {
                    assert(held.contains_key(p));
                }
                assert forall|p: Seq<char>| #[trigger] per_path@.contains_key(p) implies table.contains_key(
                    p,
                ) && is_object(json_text(per_path@[p]), table[p]) && !groups@.contains_key(p) && (
                next matches Some(entry) ==> entry.0@ != p) by {
                    if p != key {
                        assert(done.contains_key(p));
                    }
                }
                assert forall|p: Seq<char>| #[trigger] table.contains_key(p) implies groups@.contains_key(
                    p,
                ) || per_path@.contains_key(p) || (next matches Some(entry) && entry.0@ == p) by {
                    if p != key && !done.contains_key(p) {
                        assert(held.contains_key(p));
                    }
                }
            }
        }
        let ghost shown = member_texts(per_path@);
        let paths = object_of(per_path);
        proof {
            assert(shown.dom() =~= table.dom());
            assert(is_paths(json_text(paths), table));
        }
        let ghost paths_text = json_text(paths);
        let title_value = json_text_value(title);
        let version_value = json_text_value(version);
        let ghost title_text = json_text(title_value);
        let ghost version_text = json_text(version_value);
        let info = pair("title", title_value, "version", version_value);
        let opener = json_text_value("3.0.0");
        let ghost info_text = json_text(info);
        let ghost opener_text = json_text(opener);
        let mut members: AssocList<String, serde_json::Value> = AssocList::new();
        members.insert("openapi".to_owned(), opener);
        members.insert("info".to_owned(), info);
        members.insert("paths".to_owned(), paths);
        proof {
            assert(member_texts(members@) =~= map![
                "openapi"@ => opener_text,
                "info"@ => info_text,
                "paths"@ => paths_text
            ]);
            assert(is_text(opener_text, "3.0.0"@));
            assert(is_text(title_text, title@));
            assert(is_text(version_text, version@));
            assert(is_info(info_text, title@, version@));
        }
        let doc = object_of(members);
        proof {
            assert(is_document(json_text(doc), title@, version@, paths_text));
            assert(describes(json_text(doc), title@, version@, routes, limit as nat));
        }
        doc
    }
}

} // verus!
