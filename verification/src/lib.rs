//! A fine-grained reactive memoization runtime.
//!
//! Leaves ([`Rx`], [`RxVec`]) hold mutable values, memoized functions ([`RxFn`]) cache the
//! result of a closure and run it again when anything it read last time has changed, and
//! effects ([`Effect`]) run on demand while they are dirty. Dependencies are found by
//! watching what a closure reads through the [`RxCtx`] it is handed.
//!
//! All bookkeeping lives in the [`RxCtx`]: the consumer records and the downstream lists of
//! the sources. Its view is a [`graph::Graph`], and every operation of the library states
//! which graph it leaves behind.

pub mod context;
mod dirty;
pub mod effect;
pub mod graph;
pub mod id;
pub mod rx;
pub mod rx_fn;
pub mod rx_vec;
pub mod theory;
mod track;

pub use crate::context::{Dependent, DependentRef, RxCtx};
pub use crate::effect::Effect;
pub use crate::id::{Id, IdRef};
pub use crate::rx::Rx;
pub use crate::rx_fn::RxFn;
pub use crate::rx_vec::{RxVec, RxVecValue};
