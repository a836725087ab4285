//! Transforms of a payload, and the queue entries that hold them.

use vstd::prelude::*;

verus! {

/// A step from one payload to the next.
///
/// `accepts` says on which payloads the step may be taken, `relates` which
/// results it may give. A step need not be a function: `relates` may hold of
/// several results for one payload.
pub trait Transform: Send {
    spec fn accepts(&self, payload: Option<String>) -> bool;

    spec fn relates(&self, payload: Option<String>, result: Option<String>) -> bool;

    fn apply(&self, payload: Option<String>) -> (result: Option<String>)
        requires
            self.accepts(payload),
        ensures
            self.relates(payload, result),
    ;
}

/// Every closure from payload to payload is a transform, with the contract
/// that it was written with.
impl<F> Transform for F where F: Fn(Option<String>) -> Option<String> + Send {
    open spec fn accepts(&self, payload: Option<String>) -> bool {
        call_requires(*self, (payload,))
    }

    open spec fn relates(&self, payload: Option<String>, result: Option<String>) -> bool {
        call_ensures(*self, (payload,), result)
    }

    fn apply(&self, payload: Option<String>) -> (result: Option<String>) {
        self(payload)
    }
}

/// One entry of a promise's queue: a transform and the path it belongs to.
/// `resolve` is true for a handler of fulfillments, false for one of
/// rejections.
pub struct Handler {
    pub resolve: bool,
    pub handler: Box<dyn Transform>,
}

impl Handler {
    /// True if the entry can be run on every payload.
    pub open spec fn total(&self) -> bool {
        forall|payload: Option<String>| #[trigger] self.handler.accepts(payload)
    }

    /// True if the entry stands for `transform` on the path `resolve`: it
    /// accepts what `transform` accepts and gives what `transform` gives.
    pub open spec fn wraps<F>(&self, resolve: bool, transform: F) -> bool where
        F: Fn(Option<String>) -> Option<String>,
     {
        &&& self.resolve == resolve
        &&& forall|payload: Option<String>| #[trigger]
            self.handler.accepts(payload) == call_requires(transform, (payload,))
        &&& forall|payload: Option<String>, result: Option<String>| #[trigger]
            self.handler.relates(payload, result) == call_ensures(transform, (payload,), result)
    }

    /// Boxes `transform` as an entry for the path `resolve`.
    pub fn new<F>(resolve: bool, transform: F) -> (entry: Handler) where
        F: Send + 'static + Fn(Option<String>) -> Option<String>,

        ensures
            entry.wraps(resolve, transform),
    {
        Handler { resolve, handler: Box::new(transform) }
    }
}

} // verus!
