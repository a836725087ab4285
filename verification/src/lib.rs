//! A small promise: a cell that is settled once, to a fulfillment or to a
//! rejection, and the chain of transforms that its payload runs through.
//!
//! The cell itself is sequential. Whoever shares it between a worker and its
//! owner does so behind a lock of their own and hands each event to the cell:
//! a registration ([`Promise::then`], [`Promise::catch`]) or the settlement
//! ([`Promise::settle`]).

pub mod chain;
pub mod chain_laws;
pub mod handler;
pub mod join;
pub mod join_laws;
pub mod promise;
pub mod status;

pub use crate::chain::run_chain;
pub use crate::handler::{Handler, Transform};
pub use crate::join::join_texts;
pub use crate::promise::Promise;
pub use crate::status::{Settlement, Status};
