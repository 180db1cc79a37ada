//! The in-process event bus: handlers subscribed by the type of the event,
//! called in subscription order with a copy of the payload, until one
//! fails.

use core::any::TypeId;
use vstd::prelude::*;
use crate::assoc::AssocList;
use crate::container::TypeKey;
use crate::error::CoreError;
use crate::json::{json_clone, json_text};

verus! {

/// Handlers by event type. `EH` is the type of a handler.
pub struct EventBus<EH> {
    handlers: AssocList<TypeKey, Vec<EH>>,
}

impl<EH> View for EventBus<EH> {
    type V = Map<TypeId, Seq<EH>>;

    closed spec fn view(&self) -> Map<TypeId, Seq<EH>> {
        Map::new(
            |t: TypeId| self.handlers@.contains_key(t),
            |t: TypeId| self.handlers@[t]@,
        )
    }
}

/// The handlers subscribed to an event type, in subscription order.
pub open spec fn subscribed<EH>(bus: Map<TypeId, Seq<EH>>, type_id: TypeId) -> Seq<EH> {
    if bus.contains_key(type_id) {
        bus[type_id]
    } else {
        Seq::empty()
    }
}

/// True when `handler`, called with a copy of the payload, returned
/// `result`.
pub open spec fn answered<EH: Fn(serde_json::Value) -> Result<(), CoreError>>(
    handler: EH,
    payload: serde_json::Value,
    result: Result<(), CoreError>,
) -> bool {
    exists|copy: serde_json::Value|
        json_text(copy) == json_text(payload) && #[trigger] handler.ensures((copy,), result)
}

/// True when `handler`, called with a copy of the payload, succeeded.
pub open spec fn accepted<EH: Fn(serde_json::Value) -> Result<(), CoreError>>(
    handler: EH,
    payload: serde_json::Value,
) -> bool {
    exists|result: Result<(), CoreError>| result is Ok && #[trigger] answered(handler, payload, result)
}

/// True when the handler number `i` may be called with `v`.
pub open spec fn ready<EH: Fn(serde_json::Value) -> Result<(), CoreError>>(
    handlers: Seq<EH>,
    i: int,
    v: serde_json::Value,
) -> bool {
    handlers[i].requires((v,))
}

/// True when the handler number `i` was called with a copy of the payload
/// and succeeded.
pub open spec fn delivered<EH: Fn(serde_json::Value) -> Result<(), CoreError>>(
    handlers: Seq<EH>,
    payload: serde_json::Value,
    i: int,
) -> bool {
    accepted(handlers[i], payload)
}

/// True when the handler number `k` was called with a copy of the payload
/// and failed with `e`, after every handler before it had succeeded.
pub open spec fn failed_at<EH: Fn(serde_json::Value) -> Result<(), CoreError>>(
    handlers: Seq<EH>,
    payload: serde_json::Value,
    k: int,
    e: CoreError,
) -> bool {
    &&& 0 <= k < handlers.len()
    &&& answered(handlers[k], payload, Err(e))
    &&& forall|i: int| 0 <= i < k ==> #[trigger] delivered(handlers, payload, i)
}

impl<EH> EventBus<EH> {
    /// The bus without subscriptions.
    pub fn new() -> (r: Self)
        ensures
            r@ == Map::<TypeId, Seq<EH>>::empty(),
    {
        let r = EventBus { handlers: AssocList::new() };
        assert(r@ =~= Map::<TypeId, Seq<EH>>::empty());
        r
    }

    /// Subscribes a handler to an event type, behind the handlers already
    /// subscribed to it.
    pub fn subscribe_event(&mut self, type_id: TypeId, handler: EH)
        ensures
            final(self)@ == old(self)@.insert(
                type_id,
                subscribed(old(self)@, type_id).push(handler),
            ),
    {
        let key = TypeKey { id: type_id };
        let mut list = match self.handlers.remove(&key) {
            Some(known) => known,
            None => Vec::new(),
        };
        list.push(handler);
        self.handlers.insert(key, list);
        proof {
            assert(self@ =~= old(self)@.insert(
                type_id,
                subscribed(old(self)@, type_id).push(handler),
            ));
        }
    }
}

impl<EH: Fn(serde_json::Value) -> Result<(), CoreError>> EventBus<EH> {
    /// Publishes an event: every handler subscribed to its type is called
    /// with a copy of the payload, in subscription order. The first error
    /// ends the publish and is its result; the handlers after it are not
    /// called.
    pub fn publish_event(&self, type_id: TypeId, payload: &serde_json::Value) -> (r: Result<
        (),
        CoreError,
    >)
        requires
            forall|i: int, v: serde_json::Value|
                0 <= i < subscribed(self@, type_id).len() ==> #[trigger] ready(
                    subscribed(self@, type_id),
                    i,
                    v,
                ),
        ensures
            match r {
                Ok(()) => forall|i: int|
                    0 <= i < subscribed(self@, type_id).len() ==> #[trigger] delivered(
                        subscribed(self@, type_id),
                        *payload,
                        i,
                    ),
                Err(e) => exists|k: int| #[trigger]
                    failed_at(subscribed(self@, type_id), *payload, k, e),
            },
    {
        let key = TypeKey { id: type_id };
        match self.handlers.get(&key) {
            None => Ok(()),
            Some(list) => {
                let mut i: usize = 0;
                proof {
                    assert(list@ == subscribed(self@, type_id));
                }
                while i < list.len()
                    invariant
                        i <= list.len(),
                        list@ == subscribed(self@, type_id),
                        forall|j: int, v: serde_json::Value|
                            0 <= j < list.len() ==> #[trigger] ready(list@, j, v),
                        forall|j: int| 0 <= j < i ==> #[trigger] delivered(list@, *payload, j),
                    decreases list.len() - i,
                {
                    let copy = json_clone(payload);
                    proof {
                        assert(ready(list@, i as int, copy));
                    }
                    let outcome = (list[i])(copy);
                    proof {
                        assert(list@[i as int].ensures((copy,), outcome));
                    }
                    let ghost result = outcome;
                    match outcome {
                        Ok(_) => {
                            proof {
                                assert(result is Ok);
                                assert(answered(list@[i as int], *payload, result));
                                assert(delivered(list@, *payload, i as int));
                            }
                        },
                        Err(e) => {
                            proof {
                                assert(result == Err::<(), CoreError>(e));
                                assert(answered(list@[i as int], *payload, Err(e)));
                                assert(failed_at(list@, *payload, i as int, e));
                            }
                            return Err(e);
                        },
                    }
                    i += 1;
                }
                Ok(())
            },
        }
    }
}

} // verus!
