//! Modules: named groups of routes that are put on an application in one
//! step. A domain module holds the commands and queries of one bounded
//! context, an HTTP module the routes under one prefix.

use vstd::prelude::*;
use crate::application::Application;
use crate::error::CoreError;
use crate::registry::AppView;
use crate::text::{join, join3, skip_leading, skip_trailing, trim_end, trim_start, trimmed};

verus! {

/// The registry after the routes `routes` have been registered, in order,
/// each as `(method, path, tag)` and without a schema.
pub open spec fn registered_all<C>(
    app: AppView<C>,
    routes: Seq<(Seq<char>, Seq<char>, Option<Seq<char>>)>,
) -> AppView<C>
    decreases routes.len(),
{
    if routes.len() == 0 {
        app
    } else {
        registered_all(
            app.registered(routes[0].0, routes[0].1, None, routes[0].2),
            routes.subrange(1, routes.len() as int),
        )
    }
}

/// The handlers of a list of entries.
pub open spec fn handlers_of<H>(entries: Seq<(String, H)>) -> Seq<H> {
    Seq::new(entries.len(), |i: int| entries[i].1)
}

/// True when the handler table holds `handlers`, in order, under the
/// handles from `first` on.
pub open spec fn holds_from<H>(table: Map<u32, H>, first: int, handlers: Seq<H>) -> bool {
    forall|i: int|
        0 <= i < handlers.len() ==> #[trigger] held_at(table, first, handlers, i)
}

/// True when the handler table `after` differs from `before` at most under
/// the `count` handles from `first` on: every other handle holds a handler
/// in both or in neither, and the same one.
pub open spec fn keeps_others<H>(
    before: Map<u32, H>,
    after: Map<u32, H>,
    first: int,
    count: nat,
) -> bool {
    forall|n: u32|
        !(first <= n < first + count) ==> (#[trigger] after.contains_key(n)
            <==> before.contains_key(n)) && (before.contains_key(n) ==> after[n] == before[n])
}

/// True when the handler table holds, under the handle `first + i`, the
/// handler number `i` of `handlers`.
pub open spec fn held_at<H>(table: Map<u32, H>, first: int, handlers: Seq<H>, i: int) -> bool {
    table.contains_key((first + i) as u32) && table[(first + i) as u32] == handlers[i]
}

proof fn lemma_holds_from_extend<H>(table: Map<u32, H>, first: int, known: Seq<H>, handler: H)
    requires
        holds_from(table, first, known),
        0 <= first,
        first + known.len() <= u32::MAX,
    ensures
        holds_from(table.insert((first + known.len()) as u32, handler), first, known.push(handler)),
{
    let key = (first + known.len()) as u32;
    let after = table.insert(key, handler);
    let more = known.push(handler);
    assert forall|i: int| 0 <= i < more.len() implies #[trigger] held_at(after, first, more, i) by {
        if i < known.len() {
            assert(held_at(table, first, known, i));
            assert((first + i) as u32 != key);
        } else {
            assert((first + i) as u32 == key);
        }
    }
}

proof fn lemma_holds_from_keep<H>(table: Map<u32, H>, first: int, known: Seq<H>, key: u32, handler: H)
    requires
        holds_from(table, first, known),
        0 <= first,
        first + known.len() <= key,
    ensures
        holds_from(table.insert(key, handler), first, known),
{
    let after = table.insert(key, handler);
    assert forall|i: int| 0 <= i < known.len() implies #[trigger] held_at(after, first, known, i) by {
        assert(held_at(table, first, known, i));
        assert((first + i) as u32 != key);
    }
}

proof fn lemma_holds_from_join<H>(table: Map<u32, H>, first: int, head: Seq<H>, tail: Seq<H>)
    requires
        holds_from(table, first, head),
        holds_from(table, first + head.len(), tail),
    ensures
        holds_from(table, first, head + tail),
{
    let both = head + tail;
    assert forall|i: int| 0 <= i < both.len() implies #[trigger] held_at(table, first, both, i) by {
        if i < head.len() {
            assert(held_at(table, first, head, i));
        } else {
            assert(held_at(table, first + head.len(), tail, i - head.len()));
        }
    }
}

/// The routes of the commands or queries `names` of a context.
pub open spec fn context_routes(
    method: Seq<char>,
    context: Seq<char>,
    kind: Seq<char>,
    names: Seq<Seq<char>>,
) -> Seq<(Seq<char>, Seq<char>, Option<Seq<char>>)> {
    Seq::new(
        names.len(),
        |i: int| (method, trimmed(context, '/') + kind + names[i], Some(trimmed(context, '/'))),
    )
}

/// The names of a list of entries.
pub open spec fn names_of<H>(entries: Seq<(String, H)>) -> Seq<Seq<char>> {
    Seq::new(entries.len(), |i: int| entries[i].0@)
}

/// A bounded context: its commands and its queries, each with the handler
/// that answers it.
pub struct DomainModule<H> {
    context: String,
    commands: Vec<(String, H)>,
    queries: Vec<(String, H)>,
    aggregate_name: Option<String>,
}

/// The mathematical value of a [`DomainModule`].
pub ghost struct DomainModuleView<H> {
    pub context: Seq<char>,
    pub commands: Seq<(String, H)>,
    pub queries: Seq<(String, H)>,
    pub aggregate_name: Option<Seq<char>>,
}

impl<H> View for DomainModule<H> {
    type V = DomainModuleView<H>;

    closed spec fn view(&self) -> DomainModuleView<H> {
        DomainModuleView {
            context: self.context@,
            commands: self.commands@,
            queries: self.queries@,
            aggregate_name: match self.aggregate_name {
                Some(n) => Some(n@),
                None => None,
            },
        }
    }
}

impl<H> DomainModule<H> {
    /// The empty module of a context.
    pub fn new(context: &str) -> (r: Self)
        ensures
            r@ == (DomainModuleView::<H> {
                context: context@,
                commands: Seq::empty(),
                queries: Seq::empty(),
                aggregate_name: None,
            }),
    {
        DomainModule {
            context: context.to_owned(),
            commands: Vec::new(),
            queries: Vec::new(),
            aggregate_name: None,
        }
    }

    /// The number of commands and queries the module holds: the number of
    /// handles its registration takes.
    pub fn route_count(&self) -> (n: u128)
        ensures
            n == self@.commands.len() + self@.queries.len(),
    {
        let commands: u128 = self.commands.len() as u128;
        let queries: u128 = self.queries.len() as u128;
        commands + queries
    }

    /// Names the aggregate root of the context.
    pub fn aggregate(self, name: &str) -> (r: Self)
        ensures
            r@ == (DomainModuleView { aggregate_name: Some(name@), ..self@ }),
    {
        DomainModule {
            context: self.context,
            commands: self.commands,
            queries: self.queries,
            aggregate_name: Some(name.to_owned()),
        }
    }

    /// Adds the command `name`: `POST {context}/commands/{name}`.
    pub fn command(self, name: &str, handler: H) -> (r: Self)
        ensures
            r@.context == self@.context,
            r@.queries == self@.queries,
            r@.aggregate_name == self@.aggregate_name,
            names_of(r@.commands) == names_of(self@.commands).push(name@),
            handlers_of(r@.commands) == handlers_of(self@.commands).push(handler),
    {
        let mut commands = self.commands;
        commands.push((name.to_owned(), handler));
        proof {
            assert(names_of(commands@) =~= names_of(self@.commands).push(name@));
            assert(handlers_of(commands@) =~= handlers_of(self@.commands).push(handler));
        }
        DomainModule {
            context: self.context,
            commands,
            queries: self.queries,
            aggregate_name: self.aggregate_name,
        }
    }

    /// Adds the query `name`: `GET {context}/queries/{name}`.
    pub fn query(self, name: &str, handler: H) -> (r: Self)
        ensures
            r@.context == self@.context,
            r@.commands == self@.commands,
            r@.aggregate_name == self@.aggregate_name,
            names_of(r@.queries) == names_of(self@.queries).push(name@),
            handlers_of(r@.queries) == handlers_of(self@.queries).push(handler),
    {
        let mut queries = self.queries;
        queries.push((name.to_owned(), handler));
        proof {
            assert(names_of(queries@) =~= names_of(self@.queries).push(name@));
            assert(handlers_of(queries@) =~= handlers_of(self@.queries).push(handler));
        }
        DomainModule {
            context: self.context,
            commands: self.commands,
            queries,
            aggregate_name: self.aggregate_name,
        }
    }

    /// Puts the module on an application: the commands first, then the
    /// queries, each in the order it was added and under the next free
    /// handle. The module is left without commands and queries.
    pub fn register_into<M, C, E>(&mut self, app: &mut Application<H, M, C, E>) -> (r: Result<
        (),
        CoreError,
    >)
        requires
            old(app)@.core.next_id + old(self)@.commands.len() + old(self)@.queries.len()
                <= u32::MAX,
        ensures
            r is Ok,
            final(self)@ == (DomainModuleView {
                commands: Seq::empty(),
                queries: Seq::empty(),
                ..old(self)@
            }),
            final(app)@.core == registered_all(
                registered_all(
                    old(app)@.core,
                    context_routes(
                        "POST"@,
                        old(self)@.context,
                        "/commands/"@,
                        names_of(old(self)@.commands),
                    ),
                ),
                context_routes(
                    "GET"@,
                    old(self)@.context,
                    "/queries/"@,
                    names_of(old(self)@.queries),
                ),
            ),
            holds_from(
                final(app)@.handlers,
                old(app)@.core.next_id as int,
                handlers_of(old(self)@.commands) + handlers_of(old(self)@.queries),
            ),
            keeps_others(
                old(app)@.handlers,
                final(app)@.handlers,
                old(app)@.core.next_id as int,
                old(self)@.commands.len() + old(self)@.queries.len(),
            ),
            final(app)@.installed == old(app)@.installed,
            final(app)@.middlewares == old(app)@.middlewares,
            final(app)@.external == old(app)@.external,
    {
        let ghost start = old(app)@.core.next_id as int;
        let ghost all_commands = self.commands@;
        let ghost all_queries = self.queries@;
        let ghost command_routes = context_routes(
            "POST"@,
            self.context@,
            "/commands/"@,
            names_of(all_commands),
        );
        let ghost query_routes = context_routes(
            "GET"@,
            self.context@,
            "/queries/"@,
            names_of(all_queries),
        );
        let ghost after_commands = registered_all(old(app)@.core, command_routes);
        let mut commands: Vec<(String, H)> = Vec::new();
        std::mem::swap(&mut self.commands, &mut commands);
        let mut queries: Vec<(String, H)> = Vec::new();
        std::mem::swap(&mut self.queries, &mut queries);
        let mut done: usize = 0;
        proof {
            assert(command_routes.subrange(0, command_routes.len() as int) == command_routes);
            assert(handlers_of(all_commands).subrange(0, 0) == Seq::<H>::empty());
        }
        while commands.len() > 0
            invariant
                0 <= start,
                done + commands.len() == all_commands.len(),
                commands@ == all_commands.subrange(done as int, all_commands.len() as int),
                start + all_commands.len() + all_queries.len() <= u32::MAX,
                app@.core.next_id == start + done,
                command_routes == context_routes(
                    "POST"@,
                    self.context@,
                    "/commands/"@,
                    names_of(all_commands),
                ),
                registered_all(
                    app@.core,
                    command_routes.subrange(done as int, command_routes.len() as int),
                ) == after_commands,
                holds_from(
                    app@.handlers,
                    start,
                    handlers_of(all_commands).subrange(0, done as int),
                ),
                keeps_others(old(app)@.handlers, app@.handlers, start, done as nat),
                app@.installed == old(app)@.installed,
                app@.middlewares == old(app)@.middlewares,
                app@.external == old(app)@.external,
            decreases commands.len(),
        {
            let ghost before = app@;
            let ghost left = command_routes.subrange(done as int, command_routes.len() as int);
            let (name, handler) = commands.remove(0);
            let _ = app.add_command(self.context.as_str(), name.as_str(), None, handler);
            proof {
                assert(left[0] == command_routes[done as int]);
                assert(left.subrange(1, left.len() as int) == command_routes.subrange(
                    done + 1,
                    command_routes.len() as int,
                ));
                assert(commands@ == all_commands.subrange(done + 1, all_commands.len() as int));
                let known = handlers_of(all_commands).subrange(0, done as int);
                lemma_holds_from_extend(before.handlers, start, known, handler);
                assert(known.push(handler) == handlers_of(all_commands).subrange(0, done + 1));
            }
            done += 1;
        }
        proof {
            assert(command_routes.subrange(done as int, command_routes.len() as int).len() == 0);
            assert(handlers_of(all_commands).subrange(0, done as int) == handlers_of(
                all_commands,
            ));
        }
        let ghost target = registered_all(after_commands, query_routes);
        let ghost middle = start + all_commands.len();
        let mut seen: usize = 0;
        proof {
            assert(query_routes.subrange(0, query_routes.len() as int) == query_routes);
            assert(handlers_of(all_queries).subrange(0, 0) == Seq::<H>::empty());
        }
        while queries.len() > 0
            invariant
                0 <= start,
                seen + queries.len() == all_queries.len(),
                queries@ == all_queries.subrange(seen as int, all_queries.len() as int),
                middle == start + all_commands.len(),
                middle + all_queries.len() <= u32::MAX,
                app@.core.next_id == middle + seen,
                query_routes == context_routes(
                    "GET"@,
                    self.context@,
                    "/queries/"@,
                    names_of(all_queries),
                ),
                registered_all(
                    app@.core,
                    query_routes.subrange(seen as int, query_routes.len() as int),
                ) == target,
                holds_from(app@.handlers, start, handlers_of(all_commands)),
                holds_from(
                    app@.handlers,
                    middle,
                    handlers_of(all_queries).subrange(0, seen as int),
                ),
                keeps_others(
                    old(app)@.handlers,
                    app@.handlers,
                    start,
                    (all_commands.len() + seen) as nat,
                ),
                app@.installed == old(app)@.installed,
                app@.middlewares == old(app)@.middlewares,
                app@.external == old(app)@.external,
            decreases queries.len(),
        {
            let ghost before = app@;
            let ghost left = query_routes.subrange(seen as int, query_routes.len() as int);
            let (name, handler) = queries.remove(0);
            let _ = app.add_query(self.context.as_str(), name.as_str(), None, handler);
            proof {
                assert(left[0] == query_routes[seen as int]);
                assert(left.subrange(1, left.len() as int) == query_routes.subrange(
                    seen + 1,
                    query_routes.len() as int,
                ));
                assert(queries@ == all_queries.subrange(seen + 1, all_queries.len() as int));
                let known = handlers_of(all_queries).subrange(0, seen as int);
                lemma_holds_from_extend(before.handlers, middle, known, handler);
                assert(known.push(handler) == handlers_of(all_queries).subrange(0, seen + 1));
                lemma_holds_from_keep(
                    before.handlers,
                    start,
                    handlers_of(all_commands),
                    (middle + seen) as u32,
                    handler,
                );
            }
            seen += 1;
        }
        proof {
            assert(query_routes.subrange(seen as int, query_routes.len() as int).len() == 0);
            assert(handlers_of(all_queries).subrange(0, seen as int) == handlers_of(all_queries));
            lemma_holds_from_join(
                app@.handlers,
                start,
                handlers_of(all_commands),
                handlers_of(all_queries),
            );
        }
        Ok(())
    }
}

/// The prefix of an HTTP module: the one given, or `/` and the module's
/// name.
pub open spec fn module_prefix(name: Seq<char>, prefix: Option<Seq<char>>) -> Seq<char> {
    match prefix {
        Some(p) => p,
        None => "/"@ + name,
    }
}

/// The full path of a route of an HTTP module: the prefix without trailing
/// slashes, a slash, the route's path without leading slashes.
pub open spec fn prefixed_path(prefix: Seq<char>, path: Seq<char>) -> Seq<char> {
    skip_trailing(prefix, '/') + "/"@ + skip_leading(path, '/')
}

/// The routes under one prefix, each with its method and the handler that
/// answers it.
pub struct HttpModule<H> {
    name: String,
    prefix: String,
    routes: Vec<(String, H, String)>,
}

impl<H> HttpModule<H> {
    /// The routes added so far, as `(path, handler, method)`.
    pub closed spec fn routes(&self) -> Seq<(String, H, String)> {
        self.routes@
    }

    /// The name of the module.
    pub closed spec fn name_text(&self) -> Seq<char> {
        self.name@
    }

    /// The prefix of the module.
    pub closed spec fn prefix_text(&self) -> Seq<char> {
        self.prefix@
    }

    /// The number of routes the module holds: the number of handles its
    /// registration takes.
    pub fn route_count(&self) -> (n: usize)
        ensures
            n == self.routes().len(),
    {
        self.routes.len()
    }

    /// The name of the module.
    pub fn name(&self) -> (r: &str)
        ensures
            r@ == self.name_text(),
    {
        self.name.as_str()
    }

    /// The prefix of the module.
    pub fn prefix(&self) -> (r: &str)
        ensures
            r@ == self.prefix_text(),
    {
        self.prefix.as_str()
    }

    /// The empty module with a name and a prefix; without a prefix the name
    /// is the prefix.
    pub fn new(name: &str, prefix: Option<&str>) -> (r: Self)
        ensures
            r.name_text() == name@,
            r.prefix_text() == module_prefix(
                name@,
                match prefix {
                    Some(p) => Some(p@),
                    None => None,
                },
            ),
            r.routes().len() == 0,
    {
        let prefix = match prefix {
            Some(p) => p.to_owned(),
            None => join("/", name),
        };
        HttpModule { name: name.to_owned(), prefix, routes: Vec::new() }
    }

    /// Adds a route under the module's prefix, once for each method and its
    /// handler.
    pub fn route(self, path: &str, handlers: Vec<(String, H)>) -> (r: Self)
        ensures
            r.name_text() == self.name_text(),
            r.prefix_text() == self.prefix_text(),
            r.routes().len() == self.routes().len() + handlers.len(),
            forall|i: int| 0 <= i < self.routes().len() ==> r.routes()[i] == self.routes()[i],
            forall|i: int|
                0 <= i < handlers.len() ==> {
                    let added = #[trigger] r.routes()[self.routes().len() + i];
                    &&& added.0@ == prefixed_path(self.prefix_text(), path@)
                    &&& added.1 == handlers[i].1
                    &&& added.2@ == handlers[i].0@
                },
    {
        let full = join3(trim_end(self.prefix.as_str(), '/'), "/", trim_start(path, '/'));
        let mut routes = self.routes;
        let mut left = handlers;
        let ghost base = routes@;
        let mut done: usize = 0;
        while left.len() > 0
            invariant
                done + left.len() == handlers.len(),
                left@ == handlers@.subrange(done as int, handlers.len() as int),
                routes.len() == base.len() + done,
                full@ == prefixed_path(self.prefix@, path@),
                forall|i: int| 0 <= i < base.len() ==> routes@[i] == base[i],
                forall|i: int|
                    0 <= i < done ==> {
                        let added = #[trigger] routes@[base.len() + i];
                        &&& added.0@ == full@
                        &&& added.1 == handlers[i].1
                        &&& added.2@ == handlers[i].0@
                    },
            decreases left.len(),
        {
            let (method, handler) = left.remove(0);
            routes.push((full.clone(), handler, method));
            done += 1;
        }
        HttpModule { name: self.name, prefix: self.prefix, routes }
    }

    /// Puts the module on an application: each route under the next free
    /// handle, in the order it was added. The module is left without
    /// routes.
    pub fn register_into<M, C, E>(&mut self, app: &mut Application<H, M, C, E>) -> (r: Result<
        (),
        CoreError,
    >)
        requires
            old(app)@.core.next_id + old(self).routes().len() <= u32::MAX,
        ensures
            r is Ok,
            final(self).routes().len() == 0,
            final(self).name_text() == old(self).name_text(),
            final(self).prefix_text() == old(self).prefix_text(),
            final(app)@.core == registered_all(
                old(app)@.core,
                Seq::new(
                    old(self).routes().len(),
                    |i: int| (old(self).routes()[i].2@, old(self).routes()[i].0@, None::<Seq<char>>),
                ),
            ),
            holds_from(
                final(app)@.handlers,
                old(app)@.core.next_id as int,
                Seq::new(old(self).routes().len(), |i: int| old(self).routes()[i].1),
            ),
            keeps_others(
                old(app)@.handlers,
                final(app)@.handlers,
                old(app)@.core.next_id as int,
                old(self).routes().len(),
            ),
            final(app)@.installed == old(app)@.installed,
            final(app)@.middlewares == old(app)@.middlewares,
            final(app)@.external == old(app)@.external,
    {
        let ghost start = old(app)@.core.next_id as int;
        let ghost all = self.routes@;
        let ghost wanted = Seq::new(all.len(), |i: int| (all[i].2@, all[i].0@, None::<Seq<char>>));
        let ghost target = registered_all(old(app)@.core, wanted);
        let ghost given = Seq::new(all.len(), |i: int| all[i].1);
        let mut routes: Vec<(String, H, String)> = Vec::new();
        std::mem::swap(&mut self.routes, &mut routes);
        let mut done: usize = 0;
        proof {
            assert(wanted.subrange(0, wanted.len() as int) == wanted);
            assert(given.subrange(0, 0) == Seq::<H>::empty());
        }
        while routes.len() > 0
            invariant
                0 <= start,
                done + routes.len() == all.len(),
                routes@ == all.subrange(done as int, all.len() as int),
                start + all.len() <= u32::MAX,
                app@.core.next_id == start + done,
                wanted == Seq::new(all.len(), |i: int| (all[i].2@, all[i].0@, None::<Seq<char>>)),
                given == Seq::new(all.len(), |i: int| all[i].1),
                registered_all(app@.core, wanted.subrange(done as int, wanted.len() as int))
                    == target,
                holds_from(app@.handlers, start, given.subrange(0, done as int)),
                keeps_others(old(app)@.handlers, app@.handlers, start, done as nat),
                app@.installed == old(app)@.installed,
                app@.middlewares == old(app)@.middlewares,
                app@.external == old(app)@.external,
            decreases routes.len(),
        {
            let ghost before = app@;
            let ghost left = wanted.subrange(done as int, wanted.len() as int);
            let (path, handler, method) = routes.remove(0);
            let _ = app.register_route(method.as_str(), path.as_str(), None, handler, None);
            proof {
                assert(left[0] == wanted[done as int]);
                assert(left.subrange(1, left.len() as int) == wanted.subrange(
                    done + 1,
                    wanted.len() as int,
                ));
                assert(routes@ == all.subrange(done + 1, all.len() as int));
                let known = given.subrange(0, done as int);
                lemma_holds_from_extend(before.handlers, start, known, handler);
                assert(known.push(handler) == given.subrange(0, done + 1));
            }
            done += 1;
        }
        proof {
            assert(wanted.subrange(done as int, wanted.len() as int).len() == 0);
            assert(given.subrange(0, done as int) == given);
        }
        Ok(())
    }
}

} // verus!
