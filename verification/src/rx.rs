//! Value cells.

use vstd::prelude::*;
use crate::context::RxCtx;

verus! {

/// A cell that holds one value. A read through a tracking context makes the active
/// consumer depend on the cell; handing out the value for a change dirties every consumer
/// that the change concerns.
#[derive(Debug)]
pub struct Rx<T> {
    value: T,
    source: usize,
}

impl<T> View for Rx<T> {
    type V = T;

    closed spec fn view(&self) -> T {
        self.value
    }
}

impl<T> Rx<T> {
    /// The number under which the context keeps the cell's downstream list.
    pub closed spec fn source(&self) -> nat {
        self.source as nat
    }

    /// A cell with the value `value`, read by nobody.
    pub fn new(ctx: &mut RxCtx, value: T) -> (cell: Self)
        ensures
            cell@ == value,
            cell.source() == old(ctx)@.sources.len(),
            final(ctx)@ == old(ctx)@.add_source(),
    {
        let source = ctx.add_source();
        Rx { value, source }
    }

    /// Hands out the value and enters the active consumer in the cell's downstream list.
    pub fn get(&self, ctx: &mut RxCtx) -> (value: &T)
        ensures
            *value == self@,
            final(ctx)@ == old(ctx)@.track_source(self.source()),
    {
        ctx.track_source(self.source);
        &self.value
    }

    /// Hands out the value and leaves the downstream list alone.
    pub fn get_untracked(&self) -> (value: &T)
        ensures
            *value == self@,
    {
        &self.value
    }

    /// Hands out the value for a change. Every consumer that the change concerns is dirty
    /// afterwards, and the lists that were walked hold current links only.
    pub fn get_mut(&mut self, ctx: &mut RxCtx) -> (value: &mut T)
        ensures
            *value == old(self)@,
            final(self)@ == *final(value),
            final(self).source() == old(self).source(),
            final(ctx)@ == old(ctx)@.invalidate(old(self).source()),
    {
        ctx.invalidate(self.source);
        &mut self.value
    }

    /// How many links the cell's downstream list holds.
    pub fn dependents(&self, ctx: &RxCtx) -> (count: usize)
        ensures
            count == if self.source() < ctx@.sources.len() {
                ctx@.sources[self.source() as int].len()
            } else {
                0
            },
    {
        ctx.count_links(self.source)
    }
}

impl<T: Clone> Rx<T> {
    /// A cell of its own with a clone of the value, read by nobody.
    pub fn clone(&self, ctx: &mut RxCtx) -> (cell: Self)
        ensures
            cloned(self@, cell@),
            cell.source() == old(ctx)@.sources.len(),
            final(ctx)@ == old(ctx)@.add_source(),
    {
        let source = ctx.add_source();
        Rx { value: self.value.clone(), source }
    }
}

} // verus!
