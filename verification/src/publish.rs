//! Event publish: the subscribers of an event type are handed the payload one
//! after the other, in subscription order, until one of them fails.
//!
//! Calling a subscriber is the caller's work. A [`Publication`] says which
//! handle is next and what the publish comes to, given how each call ended.

use vstd::prelude::*;
use vstd::slice::slice_to_vec;
use crate::error::{CoreError, ErrorView};
use crate::registry::{no_callback, App};
use crate::request::{RequestContext, RequestView, Response};
use crate::router::RouteId;

verus! {

/// What the publisher does next.
#[derive(Debug)]
pub enum PublishStep {
    /// Call the dispatch function with this handle, the payload and the
    /// publication's context, and report how it ended.
    Invoke(RouteId),
    /// The publish is over, with this result.
    Done(Result<(), CoreError>),
}

/// The mathematical value of a [`PublishStep`].
pub ghost enum PublishStepView {
    Invoke(RouteId),
    Done(Result<(), ErrorView>),
}

impl View for PublishStep {
    type V = PublishStepView;

    open spec fn view(&self) -> PublishStepView {
        match self {
            PublishStep::Invoke(id) => PublishStepView::Invoke(*id),
            PublishStep::Done(Ok(())) => PublishStepView::Done(Ok(())),
            PublishStep::Done(Err(e)) => PublishStepView::Done(Err(e@)),
        }
    }
}

/// The request context every subscriber of one publish is called with.
pub open spec fn event_context(payload: Seq<u8>) -> RequestView {
    RequestView { method: "EVENT"@, path: Seq::empty(), headers: Seq::empty(), body: payload }
}

/// How one call of a subscriber ended, as far as the publish depends on it.
pub open spec fn call_outcome(r: Result<Response, CoreError>) -> Option<ErrorView> {
    match r {
        Ok(_) => None,
        Err(e) => Some(e@),
    }
}

/// The mathematical value of a [`Publication`]: the context, the
/// subscribers to call, and how many of them are behind us. After a failure
/// all of them are.
pub ghost struct PublicationView {
    pub context: RequestView,
    pub handlers: Seq<RouteId>,
    pub cursor: nat,
}

impl PublicationView {
    /// The state and step after the last call ended as `last` says; `None`
    /// stands for "no call was made yet" as for "the call succeeded".
    pub open spec fn advance(self, last: Option<ErrorView>) -> (PublicationView, PublishStepView) {
        match last {
            Some(e) => (
                PublicationView { cursor: self.handlers.len(), ..self },
                PublishStepView::Done(Err(e)),
            ),
            None => if self.cursor < self.handlers.len() {
                (
                    PublicationView { cursor: self.cursor + 1, ..self },
                    PublishStepView::Invoke(self.handlers[self.cursor as int]),
                )
            } else {
                (self, PublishStepView::Done(Ok(())))
            },
        }
    }

    /// The handles called and the result reached when the calls end as
    /// `outcomes` says, the first entry for the first call; the result is
    /// `None` while calls are still owed.
    pub open spec fn run(self, last: Option<ErrorView>, outcomes: Seq<Option<ErrorView>>) -> (
        Seq<RouteId>,
        Option<Result<(), ErrorView>>,
    )
        decreases outcomes.len(),
    {
        let (next, step) = self.advance(last);
        match step {
            PublishStepView::Done(result) => (Seq::empty(), Some(result)),
            PublishStepView::Invoke(id) => if outcomes.len() == 0 {
                (seq![id], None)
            } else {
                let rest = next.run(outcomes[0], outcomes.subrange(1, outcomes.len() as int));
                (seq![id] + rest.0, rest.1)
            },
        }
    }
}

/// One publish in progress.
pub struct Publication {
    context: RequestContext,
    handlers: Vec<RouteId>,
    cursor: usize,
}

impl View for Publication {
    type V = PublicationView;

    closed spec fn view(&self) -> PublicationView {
        PublicationView {
            context: self.context@,
            handlers: self.handlers@,
            cursor: if self.cursor <= self.handlers.len() {
                self.cursor as nat
            } else {
                self.handlers@.len()
            },
        }
    }
}

impl Publication {
    /// The context to call each subscriber with; its body is the payload.
    pub fn context(&self) -> (r: &RequestContext)
        ensures
            r@ == self@.context,
    {
        &self.context
    }

    /// Says what to do next. `last` is how the call that the previous step
    /// asked for ended, and `None` before the first step.
    pub fn advance(&mut self, last: Option<Result<Response, CoreError>>) -> (step: PublishStep)
        ensures
            (final(self)@, step@) == old(self)@.advance(
                match last {
                    Some(r) => call_outcome(r),
                    None => None,
                },
            ),
    {
        match last {
            Some(Err(e)) => {
                self.cursor = self.handlers.len();
                PublishStep::Done(Err(e))
            },
            _ => {
                if self.cursor < self.handlers.len() {
                    let id = self.handlers[self.cursor];
                    self.cursor = self.cursor + 1;
                    PublishStep::Invoke(id)
                } else {
                    PublishStep::Done(Ok(()))
                }
            },
        }
    }
}

impl<C> App<C> {
    /// Starts a publish of `payload` to the subscribers of an event type.
    /// Without a dispatch function in the slot there is nothing to call, and
    /// the publish is refused before any subscriber is looked at.
    pub fn publish_event(&self, event_type_id: &str, payload: &[u8]) -> (r: Result<
        Publication,
        CoreError,
    >)
        ensures
            match r {
                Ok(p) => self@.callback is Some && p@ == (PublicationView {
                    context: event_context(payload@),
                    handlers: self@.subscribers(event_type_id@),
                    cursor: 0,
                }),
                Err(e) => self@.callback is None && e@ == no_callback(),
            },
    {
        if self.get_callback().is_none() {
            return Err(CoreError::Validation("no callback set".to_owned()));
        }
        let context = RequestContext {
            method: "EVENT".to_owned(),
            path: String::new(),
            headers: Vec::new(),
            body: slice_to_vec(payload),
        };
        proof {
            assert(context@.headers =~= Seq::<(Seq<char>, Seq<char>)>::empty());
        }
        Ok(Publication { context, handlers: self.subscribers(event_type_id), cursor: 0 })
    }
}

/// When every call succeeds, every subscriber is called once, in
/// subscription order, and the publish succeeds.
pub proof fn law_publish_reaches_all(p: PublicationView, outcomes: Seq<Option<ErrorView>>)
    requires
        p.cursor <= p.handlers.len(),
        outcomes.len() == p.handlers.len() - p.cursor,
        forall|i: int| 0 <= i < outcomes.len() ==> outcomes[i] is None,
    ensures
        p.run(None, outcomes) == (
            p.handlers.subrange(p.cursor as int, p.handlers.len() as int),
            Some(Ok::<(), ErrorView>(())),
        ),
    decreases outcomes.len(),
{
    let (next, step) = p.advance(None);
    if p.cursor < p.handlers.len() {
        let rest_outcomes = outcomes.subrange(1, outcomes.len() as int);
        law_publish_reaches_all(next, rest_outcomes);
        let tail = p.handlers.subrange(next.cursor as int, p.handlers.len() as int);
        assert(seq![p.handlers[p.cursor as int]] + tail == p.handlers.subrange(
            p.cursor as int,
            p.handlers.len() as int,
        ));
    } else {
        assert(p.handlers.subrange(p.cursor as int, p.handlers.len() as int) == Seq::<
            RouteId,
        >::empty());
    }
}

/// When the call number `k` is the first to fail, the subscribers up to
/// that one are called, in subscription order, none after it, and the
/// publish fails with that call's error.
pub proof fn law_publish_stops_at_first_failure(
    p: PublicationView,
    outcomes: Seq<Option<ErrorView>>,
    k: int,
)
    requires
        p.cursor <= p.handlers.len(),
        outcomes.len() == p.handlers.len() - p.cursor,
        0 <= k < outcomes.len(),
        outcomes[k] is Some,
        forall|i: int| 0 <= i < k ==> outcomes[i] is None,
    ensures
        p.run(None, outcomes) == (
            p.handlers.subrange(p.cursor as int, p.cursor as int + k + 1),
            Some(Err::<(), ErrorView>(outcomes[k].unwrap())),
        ),
    decreases k,
{
    let (next, step) = p.advance(None);
    let rest_outcomes = outcomes.subrange(1, outcomes.len() as int);
    let first = seq![p.handlers[p.cursor as int]];
    if k == 0 {
        let (halted, verdict) = next.advance(outcomes[0]);
        assert(next.run(outcomes[0], rest_outcomes) == (
            Seq::<RouteId>::empty(),
            Some(Err::<(), ErrorView>(outcomes[0].unwrap())),
        ));
        assert(first + Seq::<RouteId>::empty() == p.handlers.subrange(
            p.cursor as int,
            p.cursor as int + 1,
        ));
    } else {
        law_publish_stops_at_first_failure(next, rest_outcomes, k - 1);
        assert(outcomes[0] is None);
        assert(first + p.handlers.subrange(next.cursor as int, next.cursor as int + k) == p.handlers.subrange(
            p.cursor as int,
            p.cursor as int + k + 1,
        ));
    }
}

} // verus!
