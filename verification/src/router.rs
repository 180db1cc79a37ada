//! The route table: exact `(method, path)` lookup, methods compared in upper
//! case and paths without their outer slashes.

use vstd::prelude::*;
use vstd::hash_map::StringHashMap;
use crate::text::{lemma_trimmed_ignores_runs, run_of, to_upper, trim_both, trimmed, uppercased};

verus! {

/// Handle of a registered route, RPC method or event subscription.
#[derive(Clone, Copy, Debug, Hash, PartialEq, Eq, Structural)]
pub struct RouteId(pub u32);

/// The key a `(method, path)` pair is stored and looked up under.
pub open spec fn route_key(method: Seq<char>, path: Seq<char>) -> (Seq<char>, Seq<char>) {
    (uppercased(method), trimmed(path, '/'))
}

/// One method registered under a path.
pub struct MethodEntry {
    pub method: String,
    pub id: RouteId,
}

/// The handle of the first entry for `method`, if there is one.
pub open spec fn find_method(entries: Seq<MethodEntry>, method: Seq<char>) -> Option<RouteId>
    decreases entries.len(),
{
    if entries.len() == 0 {
        None
    } else if entries[0].method@ == method {
        Some(entries[0].id)
    } else {
        find_method(entries.subrange(1, entries.len() as int), method)
    }
}

/// Maps `(method, path)` to a [`RouteId`]. Only literal paths are known: no
/// placeholders, no wildcards.
pub struct Router {
    table: StringHashMap<Vec<MethodEntry>>,
}

impl View for Router {
    type V = Map<(Seq<char>, Seq<char>), RouteId>;

    closed spec fn view(&self) -> Map<(Seq<char>, Seq<char>), RouteId> {
        Map::new(
            |k: (Seq<char>, Seq<char>)|
                self.table@.contains_key(k.1) && find_method(self.table@[k.1]@, k.0) is Some,
            |k: (Seq<char>, Seq<char>)| find_method(self.table@[k.1]@, k.0).unwrap(),
        )
    }
}

proof fn lemma_find_method_prepend(first: MethodEntry, rest: Seq<MethodEntry>, method: Seq<char>)
    ensures
        find_method(seq![first] + rest, method) == if first.method@ == method {
            Some(first.id)
        } else {
            find_method(rest, method)
        },
{
    let all = seq![first] + rest;
    assert(all[0] == first);
    assert(all.subrange(1, all.len() as int) == rest);
}

proof fn lemma_find_method_suffix(entries: Seq<MethodEntry>, method: Seq<char>, i: int)
    requires
        0 <= i <= entries.len(),
        forall|j: int| 0 <= j < i ==> entries[j].method@ != method,
    ensures
        find_method(entries, method) == find_method(entries.subrange(i, entries.len() as int), method),
    decreases i,
{
    if i == 0 {
        assert(entries.subrange(0, entries.len() as int) == entries);
    } else {
        let rest = entries.subrange(1, entries.len() as int);
        assert forall|j: int| 0 <= j < i - 1 implies rest[j].method@ != method by {
            assert(rest[j] == entries[j + 1]);
        }
        lemma_find_method_suffix(rest, method, i - 1);
        assert(rest.subrange(i - 1, rest.len() as int) == entries.subrange(i, entries.len() as int));
    }
}

impl Router {
    /// The empty table.
    pub fn new() -> (r: Self)
        ensures
            r@ == Map::<(Seq<char>, Seq<char>), RouteId>::empty(),
    {
        let r = Router { table: StringHashMap::new() };
        assert(r@ =~= Map::<(Seq<char>, Seq<char>), RouteId>::empty());
        r
    }

    /// Stores `id` under `(method, path)`, replacing what was stored under
    /// the same key. The method is upper-cased and the path loses its
    /// leading and trailing slashes.
    pub fn add(&mut self, method: &str, path: &str, id: RouteId)
        ensures
            final(self)@ == old(self)@.insert(route_key(method@, path@), id),
    {
        let slot = trim_both(path, '/');
        let upper = to_upper(method);
        let ghost key = upper@;
        let mut entries: Vec<MethodEntry> = Vec::new();
        entries.push(MethodEntry { method: upper, id });
        let ghost first = entries@[0];
        let ghost before: Seq<MethodEntry> = Seq::empty();
        match self.table.get(slot) {
            Some(known) => {
                proof {
                    before = known@;
                }
                let mut i: usize = 0;
                while i < known.len()
                    invariant
                        i <= known.len(),
                        entries@ == seq![first] + known@.subrange(0, i as int),
                    decreases known.len() - i,
                {
                    let entry = &known[i];
                    entries.push(MethodEntry { method: entry.method.clone(), id: entry.id });
                    i += 1;
                    proof {
                        assert(known@.subrange(0, i as int) == known@.subrange(0, i - 1).push(
                            known@[i - 1],
                        ));
                    }
                }
                proof {
                    assert(known@.subrange(0, known.len() as int) == known@);
                }
            },
            None => {},
        }
        proof {
            assert(entries@ == seq![first] + before);
            assert forall|m: Seq<char>| #[trigger]
                find_method(entries@, m) == if m == key {
                    Some(id)
                } else {
                    find_method(before, m)
                } by {
                lemma_find_method_prepend(first, before, m);
            }
            assert(before.len() == 0 ==> forall|m: Seq<char>| find_method(before, m) is None);
        }
        let ghost stored = entries@;
        self.table.insert(slot.to_owned(), entries);
        proof {
            let want = old(self)@.insert(route_key(method@, path@), id);
            assert(self.table@[slot@]@ == stored);
            assert forall|k: (Seq<char>, Seq<char>)| self@.contains_key(k) == want.contains_key(
                k,
            ) && (self@.contains_key(k) ==> self@[k] == want[k]) by {
                if k.1 == slot@ {
                    assert(find_method(stored, k.0) == if k.0 == key {
                        Some(id)
                    } else {
                        find_method(before, k.0)
                    });
                } else {
                    assert(self.table@.contains_key(k.1) == old(self).table@.contains_key(k.1));
                }
            }
            assert(self@ =~= want);
        }
    }

    /// The handle stored under `(method, path)`, if there is one. The same
    /// normalisation applies as in [`Router::add`].
    pub fn match_route(&self, method: &str, path: &str) -> (r: Option<RouteId>)
        ensures
            r == if self@.contains_key(route_key(method@, path@)) {
                Some(self@[route_key(method@, path@)])
            } else {
                None
            },
    {
        let slot = trim_both(path, '/');
        let upper = to_upper(method);
        match self.table.get(slot) {
            None => None,
            Some(known) => {
                let mut i: usize = 0;
                while i < known.len()
                    invariant
                        i <= known.len(),
                        forall|j: int| 0 <= j < i ==> known@[j].method@ != upper@,
                        self.table@.contains_key(slot@),
                        *known == self.table@[slot@],
                        (upper@, slot@) == route_key(method@, path@),
                    decreases known.len() - i,
                {
                    if known[i].method == upper {
                        proof {
                            lemma_find_method_suffix(known@, upper@, i as int);
                            let tail = known@.subrange(i as int, known.len() as int);
                            assert(tail[0] == known@[i as int]);
                        }
                        return Some(known[i].id);
                    }
                    i += 1;
                }
                proof {
                    lemma_find_method_suffix(known@, upper@, known.len() as int);
                    assert(known@.subrange(known.len() as int, known.len() as int).len() == 0);
                }
                None
            },
        }
    }
}

impl Default for Router {
    fn default() -> (r: Self)
        ensures
            r@ == Map::<(Seq<char>, Seq<char>), RouteId>::empty(),
    {
        Router::new()
    }
}

/// A lookup after a registration finds the registered handle, whatever
/// slashes stand before or after the path on either side: the probe may
/// carry `lead` leading and `trail` trailing slashes around a path that was
/// registered with `lead0` and `trail0` of them.
pub proof fn law_match_after_add(
    table: Map<(Seq<char>, Seq<char>), RouteId>,
    method: Seq<char>,
    path: Seq<char>,
    id: RouteId,
    lead0: nat,
    trail0: nat,
    lead: nat,
    trail: nat,
)
    ensures
        ({
            let registered = run_of('/', lead0) + path + run_of('/', trail0);
            let probe = run_of('/', lead) + path + run_of('/', trail);
            let after = table.insert(route_key(method, registered), id);
            after.contains_key(route_key(method, probe)) && after[route_key(method, probe)] == id
        }),
{
    lemma_trimmed_ignores_runs(path, '/', lead0, trail0);
    lemma_trimmed_ignores_runs(path, '/', lead, trail);
}

/// A registration under one key leaves every other key as it was.
pub proof fn law_add_keeps_others(
    table: Map<(Seq<char>, Seq<char>), RouteId>,
    method: Seq<char>,
    path: Seq<char>,
    id: RouteId,
    other: (Seq<char>, Seq<char>),
)
    requires
        other != route_key(method, path),
    ensures
        table.insert(route_key(method, path), id).contains_key(other) == table.contains_key(other),
        table.contains_key(other) ==> table.insert(route_key(method, path), id)[other] == table[other],
{
}

} // verus!
