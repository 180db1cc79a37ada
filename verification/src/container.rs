//! A minimal dependency container: instances and factories, registered by
//! type identity or by a text key. A factory runs at most once, on the first
//! resolve that finds no instance, and what it builds is kept.
//!
//! The container holds instances of one type `I`; a caller that wants to
//! keep values of many types stores them behind a type-erased `I` and casts
//! them back on its side.

use core::any::TypeId;
use vstd::prelude::*;
use crate::assoc::{AssocList, SameKey};

verus! {

/// `core::any::TypeId`: the identity of a type, carried as it is.
#[verifier::external_type_specification]
#[verifier::external_body]
pub struct ExTypeId(TypeId);

/// Equality of two type identities (`TypeId`'s `PartialEq`): true exactly
/// when they are the same identity.
#[verifier::external_body]
fn same_type(a: &TypeId, b: &TypeId) -> (r: bool)
    ensures
        r == (*a == *b),
{
    a == b
}

/// A type identity as a key.
pub struct TypeKey {
    pub id: TypeId,
}

impl View for TypeKey {
    type V = TypeId;

    open spec fn view(&self) -> TypeId {
        self.id
    }
}

impl SameKey for TypeKey {
    fn same_key(&self, other: &Self) -> (r: bool) {
        same_type(&self.id, &other.id)
    }
}

/// Why a resolve failed.
#[derive(Debug)]
pub enum ContainerError {
    /// Nothing is registered for the type or key.
    NotFound,
}

impl ContainerError {
    /// The text of the error.
    pub fn message(&self) -> (r: String)
        ensures
            r@ == "no registration for type"@,
    {
        "no registration for type".to_owned()
    }
}

/// Builds an instance, with the container at hand to resolve what the
/// instance depends on.
pub trait Factory<I>: Sized {
    /// What one run of the factory may come to: the container as the run
    /// found it, the container as the run left it, and the instance built.
    /// A factory that says nothing of itself may come to anything.
    open spec fn built(
        &self,
        before: ContainerView<I, Self>,
        after: ContainerView<I, Self>,
        value: I,
    ) -> bool {
        true
    }

    /// Builds the instance.
    fn build(&self, container: &mut Container<I, Self>) -> (value: I)
        ensures
            self.built(old(container)@, final(container)@, value),
    ;
}

/// Instances and factories by type identity and by text key.
pub struct Container<I, F> {
    store: AssocList<TypeKey, I>,
    factories: AssocList<TypeKey, F>,
    keyed_store: AssocList<String, (TypeId, I)>,
    keyed_factories: AssocList<String, (TypeId, F)>,
}

/// The mathematical value of a [`Container`].
pub ghost struct ContainerView<I, F> {
    pub store: Map<TypeId, I>,
    pub factories: Map<TypeId, F>,
    pub keyed_store: Map<Seq<char>, (TypeId, I)>,
    pub keyed_factories: Map<Seq<char>, (TypeId, F)>,
}

impl<I, F: Factory<I>> ContainerView<I, F> {
    /// True when `after` and `value` are what the first resolve of a type
    /// comes to whose factory is registered and whose instance is not: the
    /// factory, taken out of the container, ran once on what was left, and
    /// what it built was put into the container it left behind, as the
    /// instance of the type.
    pub open spec fn typed_build(self, type_id: TypeId, after: Self, value: I) -> bool {
        exists|left: Self|
            #[trigger] self.factories[type_id].built(
                ContainerView { factories: self.factories.remove(type_id), ..self },
                left,
                value,
            ) && after == (ContainerView { store: left.store.insert(type_id, value), ..left })
    }

    /// The same for an instance under a text key; the instance is kept
    /// with the type its factory was registered for.
    pub open spec fn keyed_build(self, key: Seq<char>, after: Self, value: I) -> bool {
        exists|left: Self|
            #[trigger] self.keyed_factories[key].1.built(
                ContainerView { keyed_factories: self.keyed_factories.remove(key), ..self },
                left,
                value,
            ) && after == (ContainerView {
                keyed_store: left.keyed_store.insert(key, (self.keyed_factories[key].0, value)),
                ..left
            })
    }
}

impl<I, F> View for Container<I, F> {
    type V = ContainerView<I, F>;

    closed spec fn view(&self) -> ContainerView<I, F> {
        ContainerView {
            store: self.store@,
            factories: self.factories@,
            keyed_store: self.keyed_store@,
            keyed_factories: self.keyed_factories@,
        }
    }
}

impl<I, F> Container<I, F> {
    /// The empty container.
    pub fn new() -> (r: Self)
        ensures
            r@ == (ContainerView::<I, F> {
                store: Map::empty(),
                factories: Map::empty(),
                keyed_store: Map::empty(),
                keyed_factories: Map::empty(),
            }),
    {
        Container {
            store: AssocList::new(),
            factories: AssocList::new(),
            keyed_store: AssocList::new(),
            keyed_factories: AssocList::new(),
        }
    }

    /// Registers a ready-made instance for a type, replacing the instance
    /// that was there.
    pub fn register_instance(&mut self, type_id: TypeId, value: I)
        ensures
            final(self)@ == (ContainerView {
                store: old(self)@.store.insert(type_id, value),
                ..old(self)@
            }),
    {
        self.store.insert(TypeKey { id: type_id }, value);
    }

    /// Registers a factory for a type, replacing the factory that was
    /// there.
    pub fn register_factory(&mut self, type_id: TypeId, factory: F)
        ensures
            final(self)@ == (ContainerView {
                factories: old(self)@.factories.insert(type_id, factory),
                ..old(self)@
            }),
    {
        self.factories.insert(TypeKey { id: type_id }, factory);
    }

    /// The instance of a type, for changing it in place. No factory runs.
    pub fn resolve_mut(&mut self, type_id: TypeId) -> (r: Result<&mut I, ContainerError>)
        ensures
            match r {
                Ok(v) => old(self)@.store.contains_key(type_id) && *v == old(self)@.store[type_id]
                    && final(self)@ == (ContainerView {
                    store: old(self)@.store.insert(type_id, *final(v)),
                    ..old(self)@
                }),
                Err(_) => !old(self)@.store.contains_key(type_id) && final(self)@ == old(self)@,
            },
    {
        let key = TypeKey { id: type_id };
        match self.store.get_mut(&key) {
            Some(v) => Ok(v),
            None => Err(ContainerError::NotFound),
        }
    }

    /// Registers a ready-made instance of a type under a text key,
    /// replacing the instance that was there.
    pub fn register_instance_with_key(&mut self, key: String, type_id: TypeId, value: I)
        ensures
            final(self)@ == (ContainerView {
                keyed_store: old(self)@.keyed_store.insert(key@, (type_id, value)),
                ..old(self)@
            }),
    {
        self.keyed_store.insert(key, (type_id, value));
    }

    /// Registers a factory of instances of a type under a text key,
    /// replacing the factory that was there. The factory is not run.
    pub fn register_factory_with_key(&mut self, key: String, type_id: TypeId, factory: F)
        ensures
            final(self)@ == (ContainerView {
                keyed_factories: old(self)@.keyed_factories.insert(key@, (type_id, factory)),
                ..old(self)@
            }),
    {
        self.keyed_factories.insert(key, (type_id, factory));
    }
}

impl<I, F: Factory<I>> Container<I, F> {
    /// The instance of a type. An instance that is there is returned, and
    /// nothing changes: no factory runs. When there is none but a factory
    /// is registered, the factory is taken out of the container and run,
    /// once, and what it built is kept as the instance and returned.
    /// Without instance and factory the resolve fails.
    pub fn resolve(&mut self, type_id: TypeId) -> (r: Result<&I, ContainerError>)
        ensures
            old(self)@.store.contains_key(type_id) ==> final(self)@ == old(self)@ && (r matches Ok(
                v,
            ) && *v == old(self)@.store[type_id]),
            !old(self)@.store.contains_key(type_id) && !old(self)@.factories.contains_key(type_id)
                ==> final(self)@ == old(self)@ && r is Err,
            !old(self)@.store.contains_key(type_id) && old(self)@.factories.contains_key(type_id)
                ==> (r matches Ok(v) && old(self)@.typed_build(type_id, final(self)@, *v)),
    {
        let key = TypeKey { id: type_id };
        if !self.store.contains_key(&key) {
            match self.factories.remove(&key) {
                Some(factory) => {
                    let ghost taken = self@;
                    let value = factory.build(self);
                    let ghost left = self@;
                    self.store.insert(TypeKey { id: type_id }, value);
                    proof {
                        assert(factory.built(taken, left, value));
                        assert(self@ == (ContainerView {
                            store: left.store.insert(type_id, value),
                            ..left
                        }));
                        assert(factory == old(self)@.factories[type_id]);
                        assert(taken == (ContainerView {
                            factories: old(self)@.factories.remove(type_id),
                            ..old(self)@
                        }));
                        assert(old(self)@.typed_build(type_id, self@, value));
                    }
                },
                None => {
                    assert(self.factories@ =~= old(self).factories@);
                },
            }
        }
        match self.store.get(&key) {
            Some(v) => Ok(v),
            None => Err(ContainerError::NotFound),
        }
    }

    /// The instance of a type under a text key. An instance that is there
    /// is returned if it is of the wanted type, and refused if it is of
    /// another; nothing changes either way. When there is none but a
    /// factory is registered under the key, the factory is taken out of
    /// the container and run, once, and what it built is kept with the
    /// factory's type; it is returned if that is the wanted type and
    /// refused if not. Without instance and factory the resolve fails.
    pub fn resolve_by_key(&mut self, key: &str, type_id: TypeId) -> (r: Result<&I, ContainerError>)
        ensures
            old(self)@.keyed_store.contains_key(key@) ==> final(self)@ == old(self)@ && (match r {
                Ok(v) => old(self)@.keyed_store[key@].0 == type_id && *v == old(self)@.keyed_store[key@].1,
                Err(_) => old(self)@.keyed_store[key@].0 != type_id,
            }),
            !old(self)@.keyed_store.contains_key(key@) && !old(self)@.keyed_factories.contains_key(
                key@,
            ) ==> final(self)@ == old(self)@ && r is Err,
            !old(self)@.keyed_store.contains_key(key@) && old(self)@.keyed_factories.contains_key(
                key@,
            ) ==> final(self)@.keyed_store.contains_key(key@) && old(self)@.keyed_build(
                key@,
                final(self)@,
                final(self)@.keyed_store[key@].1,
            ) && (match r {
                Ok(v) => old(self)@.keyed_factories[key@].0 == type_id && *v == final(self)@.keyed_store[key@].1,
                Err(_) => old(self)@.keyed_factories[key@].0 != type_id,
            }),
    {
        let owned = key.to_owned();
        if !self.keyed_store.contains_key(&owned) {
            match self.keyed_factories.remove(&owned) {
                Some(entry) => {
                    let ghost taken = self@;
                    let (made_for, factory) = entry;
                    let value = factory.build(self);
                    let ghost left = self@;
                    self.keyed_store.insert(key.to_owned(), (made_for, value));
                    proof {
                        assert(factory.built(taken, left, value));
                        assert(self@ == (ContainerView {
                            keyed_store: left.keyed_store.insert(key@, (made_for, value)),
                            ..left
                        }));
                        assert(old(self)@.keyed_build(key@, self@, value));
                    }
                },
                None => {
                    assert(self.keyed_factories@ =~= old(self).keyed_factories@);
                },
            }
        }
        match self.keyed_store.get(&owned) {
            Some(entry) => {
                if same_type(&entry.0, &type_id) {
                    Ok(&entry.1)
                } else {
                    Err(ContainerError::NotFound)
                }
            },
            None => Err(ContainerError::NotFound),
        }
    }
}

impl<I, F> Default for Container<I, F> {
    fn default() -> (r: Self)
        ensures
            r@ == (ContainerView::<I, F> {
                store: Map::empty(),
                factories: Map::empty(),
                keyed_store: Map::empty(),
                keyed_factories: Map::empty(),
            }),
    {
        Container::new()
    }
}

/// What a factory built on the first resolve is the instance from then on:
/// it is in the container the resolve leaves behind, under the type it was
/// asked for, so that every later resolve of the type finds it there and
/// runs no factory.
pub proof fn law_built_instance_is_kept<I, F: Factory<I>>(
    before: ContainerView<I, F>,
    type_id: TypeId,
    after: ContainerView<I, F>,
    value: I,
)
    requires
        before.typed_build(type_id, after, value),
    ensures
        after.store.contains_key(type_id),
        after.store[type_id] == value,
{
}

/// The same under a text key: what the factory built is kept under the
/// key, with the type the factory was registered for.
pub proof fn law_built_keyed_instance_is_kept<I, F: Factory<I>>(
    before: ContainerView<I, F>,
    key: Seq<char>,
    after: ContainerView<I, F>,
    value: I,
)
    requires
        before.keyed_build(key, after, value),
    ensures
        after.keyed_store.contains_key(key),
        after.keyed_store[key] == (before.keyed_factories[key].0, value),
{
}

/// An instance registered for a type is the one a resolve of that type
/// finds, and registering it leaves every other type as it was.
pub proof fn law_registered_instance_is_resolved<I, F>(
    c: ContainerView<I, F>,
    type_id: TypeId,
    value: I,
    other: TypeId,
)
    ensures
        c.store.insert(type_id, value).contains_key(type_id),
        c.store.insert(type_id, value)[type_id] == value,
        other != type_id ==> c.store.insert(type_id, value).contains_key(other)
            == c.store.contains_key(other),
{
}

} // verus!
