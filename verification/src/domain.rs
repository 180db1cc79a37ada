//! Markers of the domain model and the module that stands for the event bus.

use vstd::prelude::*;
use crate::error::CoreError;

verus! {

/// An aggregate root; its name labels the routes of its context.
pub trait AggregateRoot {
    fn name() -> &'static str where Self: Sized;
}

/// An entity of the domain.
pub trait Entity: Send + Sync {

}

/// A domain event. Handlers subscribe to events by their type.
pub trait DomainEvent: Send + Sync {

}

/// A command: its type names a route and describes the body it takes.
pub trait Command: 'static {
    /// The name of the command's route.
    fn name() -> String where Self: Sized;
}

/// A query: its type names a route and describes the parameters it takes.
pub trait Query: 'static {
    /// The name of the query's route.
    fn name() -> String where Self: Sized;
}

/// Persistence of an aggregate.
pub trait Repository<A>: Send {
    fn get(&self, id: &str) -> Result<Option<A>, CoreError>;

    fn add(&mut self, aggregate: A) -> Result<(), CoreError>;

    fn save(&mut self, aggregate: &A) -> Result<(), CoreError>;
}

/// The event bus as a module. The bus itself lives in the application;
/// registering this module changes nothing.
#[derive(Clone, Copy, Debug)]
pub struct EventBusModule;

impl EventBusModule {
    /// The module.
    pub fn new() -> (r: Self) {
        EventBusModule
    }
}

impl Default for EventBusModule {
    fn default() -> (r: Self) {
        EventBusModule::new()
    }
}

} // verus!
