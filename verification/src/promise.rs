//! The promise: a payload, a status and, until it is settled, the queue of
//! handlers that wait for the settlement.

use crate::chain::{chain_runs, chain_yields, run_chain};
use crate::handler::Handler;
use crate::status::{Settlement, Status};
use vstd::prelude::*;

verus! {

/// A promise.
///
/// While it is pending, `value` is absent and `handlers` holds the queue in
/// the order of registration. The settlement takes the queue away for good,
/// stores the payload that comes out of it and sets the status.
pub struct Promise {
    pub value: Option<String>,
    pub status: Status,
    pub handlers: Option<Vec<Handler>>,
}

impl Promise {
    /// The queue of a pending promise, in the order of registration; empty
    /// once the promise is settled.
    pub open spec fn queue(&self) -> Seq<Handler> {
        match self.handlers {
            Some(queue) => queue@,
            None => Seq::empty(),
        }
    }

    /// Well-formedness: the queue is there exactly while the promise is
    /// pending, a pending promise holds no payload, and every queued handler
    /// can be run on whatever the settlement brings.
    pub open spec fn wf(&self) -> bool {
        if self.status is Pending {
            &&& self.value is None
            &&& self.handlers is Some
            &&& chain_runs(self.queue(), true)
            &&& chain_runs(self.queue(), false)
        } else {
            self.handlers is None
        }
    }

    /// A fresh promise: pending, without a payload, with an empty queue.
    pub fn new() -> (fresh: Promise)
        ensures
            fresh.wf(),
            fresh.status is Pending,
            fresh.value is None,
            fresh.handlers is Some,
            fresh.queue() == Seq::<Handler>::empty(),
    {
        Promise { value: None, status: Status::Pending, handlers: Some(Vec::new()) }
    }

    /// Settles a pending promise.
    ///
    /// The queue is taken away, the payload is sent through the handlers of
    /// its path in the order of registration, and what comes out is stored.
    /// A promise is settled once: a second settlement is a fault of the
    /// caller, and no promise that is already settled is accepted here.
    pub fn settle(&mut self, outcome: Settlement)
        requires
            old(self).wf(),
            old(self).status is Pending,
        ensures
            final(self).wf(),
            final(self).status == outcome.status(),
            final(self).handlers is None,
            chain_yields(
                old(self).queue(),
                outcome.on_fulfillment(),
                outcome.payload(),
                final(self).value,
            ),
    {
        let queue = self.handlers.take().unwrap();
        assert(queue@ == old(self).queue());
        match outcome {
            Settlement::Resolve(value) => {
                self.value = run_chain(queue, true, value);
                self.status = Status::Fulfilled;
            },
            Settlement::Reject(reason) => {
                self.value = run_chain(queue, false, reason);
                self.status = Status::Rejected;
            },
        }
    }

    /// Registers a handler for each path and returns the promise itself.
    ///
    /// On a pending promise both are queued, `on_fulfilled` first. On a
    /// settled one the handler of its path is applied at once to the stored
    /// payload and the result is stored in its place; the other is dropped.
    /// The status never changes here.
    pub fn then<F1, F2>(&mut self, on_fulfilled: F1, on_rejected: F2) -> (same: &mut Promise) where
        F1: Send + 'static + Fn(Option<String>) -> Option<String>,
        F2: Send + 'static + Fn(Option<String>) -> Option<String>,

        requires
            old(self).wf(),
            old(self).status is Pending ==> forall|payload: Option<String>|
                call_requires(on_fulfilled, (payload,)) && call_requires(on_rejected, (payload,)),
            old(self).status is Fulfilled ==> call_requires(on_fulfilled, (old(self).value,)),
            old(self).status is Rejected ==> call_requires(on_rejected, (old(self).value,)),
        ensures
            *final(self) == *final(same),
            same.wf(),
            same.status == old(self).status,
            match old(self).status {
                Status::Pending => {
                    let n = old(self).queue().len() as int;
                    &&& same.value == old(self).value
                    &&& same.queue().len() == n + 2
                    &&& same.queue().take(n) == old(self).queue()
                    &&& same.queue()[n].wraps(true, on_fulfilled)
                    &&& same.queue()[n + 1].wraps(false, on_rejected)
                },
                Status::Fulfilled => call_ensures(on_fulfilled, (old(self).value,), same.value),
                Status::Rejected => call_ensures(on_rejected, (old(self).value,), same.value),
            },
    {
        match self.status {
            Status::Fulfilled => {
                let prev_value = self.value.take();
                self.value = on_fulfilled(prev_value);
            },
            Status::Rejected => {
                let prev_reason = self.value.take();
                self.value = on_rejected(prev_reason);
            },
            Status::Pending => {
                let handler_fulfilled = Handler::new(true, on_fulfilled);
                let handler_rejected = Handler::new(false, on_rejected);
                let queue = self.handlers.as_mut().unwrap();
                queue.push(handler_fulfilled);
                queue.push(handler_rejected);
                assert(queue@ == old(self).queue().push(handler_fulfilled).push(handler_rejected));
            },
        }
        self
    }

    /// Registers a handler for rejections only and returns the promise
    /// itself.
    ///
    /// A fulfilled promise is left as it is. On a rejected one the handler
    /// is applied at once to the stored reason; on a pending one it is
    /// queued.
    pub fn catch<F>(&mut self, on_rejected: F) -> (same: &mut Promise) where
        F: Send + 'static + Fn(Option<String>) -> Option<String>,

        requires
            old(self).wf(),
            old(self).status is Pending ==> forall|payload: Option<String>|
                call_requires(on_rejected, (payload,)),
            old(self).status is Rejected ==> call_requires(on_rejected, (old(self).value,)),
        ensures
            *final(self) == *final(same),
            same.wf(),
            same.status == old(self).status,
            match old(self).status {
                Status::Pending => {
                    let n = old(self).queue().len() as int;
                    &&& same.value == old(self).value
                    &&& same.queue().len() == n + 1
                    &&& same.queue().take(n) == old(self).queue()
                    &&& same.queue()[n].wraps(false, on_rejected)
                },
                Status::Fulfilled => *same == *old(self),
                Status::Rejected => call_ensures(on_rejected, (old(self).value,), same.value),
            },
    {
        match self.status {
            Status::Fulfilled => {},
            Status::Rejected => {
                let prev_reason = self.value.take();
                self.value = on_rejected(prev_reason);
            },
            Status::Pending => {
                let handler = Handler::new(false, on_rejected);
                let queue = self.handlers.as_mut().unwrap();
                queue.push(handler);
                assert(queue@ == old(self).queue().push(handler));
            },
        }
        self
    }

    /// A promise that was fulfilled with `value` before anyone registered a
    /// handler.
    pub fn resolve(value: Option<String>) -> (settled: Promise)
        ensures
            settled.wf(),
            settled.status is Fulfilled,
            settled.value == value,
            settled.handlers is None,
    {
        let mut promise = Promise::new();
        promise.settle(Settlement::Resolve(value));
        promise
    }

    /// A promise that was rejected with `reason` before anyone registered a
    /// handler.
    pub fn reject(reason: Option<String>) -> (settled: Promise)
        ensures
            settled.wf(),
            settled.status is Rejected,
            settled.value == reason,
            settled.handlers is None,
    {
        let mut promise = Promise::new();
        promise.settle(Settlement::Reject(reason));
        promise
    }
}

} // verus!
