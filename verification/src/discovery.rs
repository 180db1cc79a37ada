//! Service discovery: the interface an application resolves service names
//! through, the adapter that answers from a fixed directory, and the module
//! that chooses the adapter of an application.

use vstd::prelude::*;
use vstd::hash_map::StringHashMap;

verus! {

/// How service names become URLs. An adapter may answer from a fixed
/// directory, from a registry on the network, or from anything else.
pub trait ServiceDiscovery: Send + Sync {
    /// The URLs of a service; none when the service is not known.
    fn resolve(&self, service_name: &str) -> Vec<String>;
}

/// The directory a list of `(name, url)` pairs stands for; a later pair
/// replaces an earlier one with the same name.
pub open spec fn directory_of(pairs: Seq<(&str, &str)>) -> Map<Seq<char>, Seq<char>>
    decreases pairs.len(),
{
    if pairs.len() == 0 {
        Map::empty()
    } else {
        directory_of(pairs.drop_last()).insert(pairs.last().0@, pairs.last().1@)
    }
}

/// What a fixed directory answers for a name: the one URL it holds for it,
/// or nothing.
pub open spec fn directory_answer(directory: Map<Seq<char>, Seq<char>>, name: Seq<char>) -> Seq<
    Seq<char>,
> {
    if directory.contains_key(name) {
        seq![directory[name]]
    } else {
        Seq::empty()
    }
}

/// Discovery from a fixed directory of `name -> url`.
pub struct StaticDiscovery {
    services: StringHashMap<String>,
}

impl View for StaticDiscovery {
    type V = Map<Seq<char>, Seq<char>>;

    closed spec fn view(&self) -> Map<Seq<char>, Seq<char>> {
        Map::new(
            |name: Seq<char>| self.services@.contains_key(name),
            |name: Seq<char>| self.services@[name]@,
        )
    }
}

impl StaticDiscovery {
    /// Discovery from the given directory.
    pub fn new(services: StringHashMap<String>) -> (r: Self)
        ensures
            r@ == Map::new(
                |name: Seq<char>| services@.contains_key(name),
                |name: Seq<char>| services@[name]@,
            ),
    {
        StaticDiscovery { services }
    }

    /// Discovery from a list of `(name, url)` pairs.
    pub fn from_slice(pairs: &[(&str, &str)]) -> (r: Self)
        ensures
            r@ == directory_of(pairs@),
    {
        let mut services: StringHashMap<String> = StringHashMap::new();
        let ghost mut model: Map<Seq<char>, Seq<char>> = Map::empty();
        let mut i: usize = 0;
        while i < pairs.len()
            invariant
                i <= pairs.len(),
                model == directory_of(pairs@.subrange(0, i as int)),
                forall|name: Seq<char>| services@.contains_key(name) == model.contains_key(name),
                forall|name: Seq<char>|
                    services@.contains_key(name) ==> (#[trigger] services@[name])@ == model[name],
            decreases pairs.len() - i,
        {
            let name = pairs[i].0;
            let url = pairs[i].1;
            services.insert(name.to_owned(), url.to_owned());
            proof {
                let upto = pairs@.subrange(0, i + 1);
                assert(upto.drop_last() == pairs@.subrange(0, i as int));
                assert(upto.last() == pairs@[i as int]);
                model = model.insert(name@, url@);
            }
            i += 1;
        }
        let r = StaticDiscovery { services };
        proof {
            assert(pairs@.subrange(0, pairs.len() as int) == pairs@);
            assert(r@ =~= directory_of(pairs@));
        }
        r
    }

    /// The URLs of a service: the one the directory holds, or none.
    pub fn lookup(&self, service_name: &str) -> (r: Vec<String>)
        ensures
            r.deep_view() == directory_answer(self@, service_name@),
    {
        let mut urls: Vec<String> = Vec::new();
        match self.services.get(service_name) {
            Some(url) => {
                urls.push(url.clone());
                proof {
                    assert(urls.deep_view() =~= seq![url@]);
                }
            },
            None => {
                proof {
                    assert(urls.deep_view() =~= Seq::<Seq<char>>::empty());
                }
            },
        }
        urls
    }
}

impl Default for StaticDiscovery {
    fn default() -> (r: Self)
        ensures
            r@ == Map::<Seq<char>, Seq<char>>::empty(),
    {
        let r = StaticDiscovery { services: StringHashMap::new() };
        proof {
            assert(r@ =~= Map::<Seq<char>, Seq<char>>::empty());
        }
        r
    }
}

impl ServiceDiscovery for StaticDiscovery {
    fn resolve(&self, service_name: &str) -> (r: Vec<String>)
        ensures
            r.deep_view() == directory_answer(self@, service_name@),
    {
        self.lookup(service_name)
    }
}

/// The adapter a [`DiscoveryModule`] was given.
pub enum Adapter {
    /// A fixed directory.
    Static(StaticDiscovery),
    /// An adapter of the application's own.
    Custom(Box<dyn ServiceDiscovery>),
}

/// Chooses the discovery adapter of an application: a fixed directory, or
/// an adapter of the application's own. Without a choice the application
/// gets the empty directory.
pub struct DiscoveryModule {
    adapter: Option<Adapter>,
}

impl DiscoveryModule {
    /// The adapter chosen so far.
    pub closed spec fn chosen(&self) -> Option<Adapter> {
        self.adapter
    }

    /// The directory of the chosen adapter, when a fixed directory was
    /// chosen.
    pub open spec fn directory(&self) -> Option<Map<Seq<char>, Seq<char>>> {
        match self.chosen() {
            Some(Adapter::Static(s)) => Some(s@),
            _ => None,
        }
    }

    /// A module without a choice.
    pub fn new() -> (r: Self)
        ensures
            r.chosen() is None,
    {
        DiscoveryModule { adapter: None }
    }

    /// Chooses the fixed directory `services`.
    pub fn static_discovery(self, services: StringHashMap<String>) -> (r: Self)
        ensures
            r.directory() == Some(
                Map::new(
                    |name: Seq<char>| services@.contains_key(name),
                    |name: Seq<char>| services@[name]@,
                ),
            ),
    {
        DiscoveryModule { adapter: Some(Adapter::Static(StaticDiscovery::new(services))) }
    }

    /// Chooses the fixed directory made of `(name, url)` pairs.
    pub fn static_slice(self, pairs: &[(&str, &str)]) -> (r: Self)
        ensures
            r.directory() == Some(directory_of(pairs@)),
    {
        DiscoveryModule { adapter: Some(Adapter::Static(StaticDiscovery::from_slice(pairs))) }
    }

    /// Chooses an adapter of the application's own.
    pub fn adapter(self, custom: Box<dyn ServiceDiscovery>) -> (r: Self)
        ensures
            r.chosen() == Some(Adapter::Custom(custom)),
    {
        DiscoveryModule { adapter: Some(Adapter::Custom(custom)) }
    }

    /// Takes the choice out of the module; the empty directory when none
    /// was made. The module is left without a choice.
    pub fn take_adapter(&mut self) -> (r: Adapter)
        ensures
            final(self).chosen() is None,
            match old(self).chosen() {
                Some(a) => r == a,
                None => r matches Adapter::Static(s) && s@ == Map::<Seq<char>, Seq<char>>::empty(),
            },
    {
        let mut taken: Option<Adapter> = None;
        std::mem::swap(&mut self.adapter, &mut taken);
        match taken {
            Some(a) => a,
            None => Adapter::Static(StaticDiscovery::default()),
        }
    }
}

impl Default for DiscoveryModule {
    fn default() -> (r: Self)
        ensures
            r.chosen() is None,
    {
        DiscoveryModule::new()
    }
}

} // verus!
