//! The three states of a promise and the two ways of settling it.

use vstd::prelude::*;

verus! {

/// Where a promise stands. It starts as `Pending` and leaves that state once.
#[derive(Debug, Clone, Copy, PartialEq, Eq, Structural)]
pub enum Status {
    Pending,
    Fulfilled,
    Rejected,
}

/// What a worker delivers to its promise: a value, or the reason of a failure.
/// Either payload may be absent, which is not the same as an empty string.
#[derive(Debug)]
pub enum Settlement {
    Resolve(Option<String>),
    Reject(Option<String>),
}

impl Settlement {
    /// True for a fulfillment, false for a rejection: the path that the
    /// payload takes through the handlers.
    pub open spec fn on_fulfillment(&self) -> bool {
        self is Resolve
    }

    /// The payload as it is delivered, before any handler has seen it.
    pub open spec fn payload(&self) -> Option<String> {
        match *self {
            Settlement::Resolve(value) => value,
            Settlement::Reject(reason) => reason,
        }
    }

    /// The status that this settlement leaves behind.
    pub open spec fn status(&self) -> Status {
        match *self {
            Settlement::Resolve(_) => Status::Fulfilled,
            Settlement::Reject(_) => Status::Rejected,
        }
    }
}

} // verus!
