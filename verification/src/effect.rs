//! Side effects.

use vstd::prelude::*;
use crate::context::{handle_of, DependentRef, RxCtx};

verus! {

/// A side effect: a closure that runs on demand while something it read has changed since
/// it last ran. It has no input and keeps no output.
#[derive(Debug)]
pub struct Effect {
    this: Option<usize>,
}

impl Effect {
    /// The consumer that stands for the effect, once it has been called.
    pub closed spec fn consumer(&self) -> Option<nat> {
        handle_of(self.this)
    }

    /// An effect that has never run.
    pub fn new() -> (effect: Self)
        ensures
            effect.consumer() is None,
    {
        Effect { this: None }
    }

    /// Whether the next call runs the closure.
    pub fn is_stale(&self, ctx: &RxCtx) -> (stale: bool)
        ensures
            stale == ctx@.dirty_of(self.consumer()),
    {
        if ctx.holds(self.this) {
            match self.this {
                Some(d) => ctx.is_dirty(d),
                None => true,
            }
        } else {
            true
        }
    }

    /// How often the closure has run on behalf of this effect in `ctx`.
    pub fn generation(&self, ctx: &RxCtx) -> (generation: u64)
        ensures
            generation == ctx@.generation_of(self.consumer()),
    {
        if ctx.holds(self.this) {
            match self.this {
                Some(d) => ctx.generation(d),
                None => 0,
            }
        } else {
            0
        }
    }

    /// A reference to the effect's consumer, which gets a record in `ctx` if it has none.
    pub fn dependent(&mut self, ctx: &mut RxCtx) -> (node: DependentRef)
        ensures
            node@ == old(ctx)@.slot(old(self).consumer()),
            final(ctx)@ == old(ctx)@.attach(old(self).consumer()),
            final(self).consumer() == Some(node@),
    {
        let index = ctx.attach(self.this);
        self.this = Some(index);
        DependentRef { index }
    }

    /// Enters the active consumer in the effect's downstream list, and runs the closure if
    /// the effect is dirty. Before the run the effect becomes clean, moves one generation on
    /// and becomes the active consumer; after it the caller's consumer is active again.
    pub fn call<F: FnMut(&mut RxCtx)>(&mut self, ctx: &mut RxCtx, closure: F)
        requires
            old(ctx)@.generation_of(old(self).consumer()) < u64::MAX,
            old(ctx)@.dirty_of(old(self).consumer()) ==> forall|inner: &mut RxCtx|
                inner@ == old(ctx)@.enter(old(self).consumer()).begin_run(
                    old(ctx)@.slot(old(self).consumer()),
                ) ==> #[trigger] call_requires(closure, (inner,)),
        ensures
            final(self).consumer() == Some(old(ctx)@.slot(old(self).consumer())),
            old(ctx)@.dirty_of(old(self).consumer()) ==> exists|inner: &mut RxCtx|
                {
                    &&& inner@ == old(ctx)@.enter(old(self).consumer()).begin_run(
                        old(ctx)@.slot(old(self).consumer()),
                    )
                    &&& #[trigger] call_ensures(closure, (inner,), ())
                    &&& final(ctx)@ == final(inner)@.with_current(old(ctx)@.current)
                },
            !old(ctx)@.dirty_of(old(self).consumer()) ==> final(ctx)@ == old(ctx)@.enter(
                old(self).consumer(),
            ),
    {
        let mut closure = closure;
        let me = ctx.attach(self.this);
        self.this = Some(me);
        ctx.track_consumer(me);
        if ctx.is_dirty(me) {
            let previous = ctx.begin_run(me);
            closure(ctx);
            ctx.resume(previous);
        }
    }

    /// Gives the effect up: its consumer expires, and the links that lead to it leave each
    /// downstream list the next time that the list is walked.
    pub fn retire(self, ctx: &mut RxCtx)
        ensures
            final(ctx)@ == match self.consumer() {
                Some(d) => old(ctx)@.expire(d),
                None => old(ctx)@,
            },
    {
        ctx.expire(self.this);
    }
}

} // verus!
