//! Memoized functions.

use vstd::prelude::*;
use vstd::std_specs::cmp::PartialEqSpec;
use crate::context::{handle_of, DependentRef, RxCtx};
use crate::graph::Graph;

verus! {

/// What a memoized function remembers.
pub struct Memo<I, O> {
    /// The input of the last run.
    pub last_input: Option<I>,
    /// The output of the last run.
    pub cached: Option<O>,
    /// The consumer that stands for the node, once it has been called.
    pub consumer: Option<nat>,
}

impl<I, O> Memo<I, O> {
    /// Whether the closure runs whatever the input is: the node is dirty, or it has nothing
    /// to hand out.
    pub open spec fn must_run(self, graph: Graph) -> bool {
        graph.dirty_of(self.consumer) || self.last_input is None || self.cached is None
    }

    /// The graph that the closure is handed when the node runs in `graph`: the caller is
    /// entered in the node's downstream list, and the node is clean, one generation further
    /// and the active consumer.
    pub open spec fn running(self, graph: Graph) -> Graph {
        graph.enter(self.consumer).begin_run(graph.slot(self.consumer))
    }

    /// A call in `graph` left `graph_after` and `self_after` behind and handed out `output`
    /// without running the closure.
    pub open spec fn reused(self, graph: Graph, self_after: Self, graph_after: Graph, output: O) -> bool {
        &&& graph_after == graph.enter(self.consumer)
        &&& self.cached == Some(output)
        &&& self_after.last_input == self.last_input
        &&& self_after.cached == self.cached
    }

    /// A run with the input `input` left `self_after` behind and handed out `output`.
    pub open spec fn stored(self, input: I, self_after: Self, output: O) -> bool {
        &&& self_after.last_input == Some(input)
        &&& self_after.cached == Some(output)
    }
}

/// A memoized function: it keeps the output of a closure together with the input that led
/// to it, and runs the closure again when the input differs or when something that the
/// closure read has changed.
#[derive(Debug)]
pub struct RxFn<I: PartialEq, O> {
    last_input: Option<I>,
    result: Option<O>,
    this: Option<usize>,
}

impl<I: PartialEq, O> View for RxFn<I, O> {
    type V = Memo<I, O>;

    closed spec fn view(&self) -> Memo<I, O> {
        Memo { last_input: self.last_input, cached: self.result, consumer: handle_of(self.this) }
    }
}

impl<I: PartialEq, O> RxFn<I, O> {
    /// A node that has never run.
    pub fn new() -> (node: Self)
        ensures
            node@ == (Memo::<I, O> { last_input: None, cached: None, consumer: None }),
    {
        RxFn { last_input: None, result: None, this: None }
    }

    /// Whether the next call runs the closure whatever its input is.
    pub fn is_stale(&self, ctx: &RxCtx) -> (stale: bool)
        ensures
            stale == self@.must_run(ctx@),
    {
        if ctx.holds(self.this) {
            match self.this {
                Some(d) => ctx.is_dirty(d) || self.last_input.is_none() || self.result.is_none(),
                None => true,
            }
        } else {
            true
        }
    }

    /// How often the closure has run on behalf of this node in `ctx`.
    pub fn generation(&self, ctx: &RxCtx) -> (generation: u64)
        ensures
            generation == ctx@.generation_of(self@.consumer),
    {
        if ctx.holds(self.this) {
            match self.this {
                Some(d) => ctx.generation(d),
                None => 0,
            }
        } else {
            0
        }
    }

    /// The input of the last run, for a caller that compares inputs itself.
    pub fn last_input(&self) -> (input: Option<&I>)
        ensures
            input == match self@.last_input {
                Some(last) => Some(&last),
                None => None,
            },
    {
        self.last_input.as_ref()
    }

    /// A reference to the node's consumer, which gets a record in `ctx` if it has none.
    pub fn dependent(&mut self, ctx: &mut RxCtx) -> (node: DependentRef)
        ensures
            node@ == old(ctx)@.slot(old(self)@.consumer),
            final(ctx)@ == old(ctx)@.attach(old(self)@.consumer),
            final(self)@ == (Memo { consumer: Some(node@), ..old(self)@ }),
    {
        let index = ctx.attach(self.this);
        self.this = Some(index);
        DependentRef { index }
    }

    /// The memoized call for a caller that compares inputs itself: `changed` says whether
    /// `params` differs from the input of the last run.
    ///
    /// The active consumer is entered in the node's downstream list. Then the closure runs if
    /// `changed` holds or the node is stale, and the cached output is handed out otherwise.
    /// Before a run the node becomes clean, moves one generation on and becomes the active
    /// consumer; after it the caller's consumer is active again.
    pub fn call_if<F: FnMut(&mut RxCtx, &I) -> O>(
        &mut self,
        ctx: &mut RxCtx,
        changed: bool,
        params: I,
        closure: F,
    ) -> (output: &O)
        requires
            old(ctx)@.generation_of(old(self)@.consumer) < u64::MAX,
            changed || old(self)@.must_run(old(ctx)@) ==> forall|inner: &mut RxCtx|
                inner@ == old(self)@.running(old(ctx)@) ==> #[trigger] call_requires(
                    closure,
                    (inner, &params),
                ),
        ensures
            final(self)@.consumer == Some(old(ctx)@.slot(old(self)@.consumer)),
            changed || old(self)@.must_run(old(ctx)@) ==> {
                &&& old(self)@.stored(params, final(self)@, *output)
                &&& exists|inner: &mut RxCtx|
                    {
                        &&& inner@ == old(self)@.running(old(ctx)@)
                        &&& #[trigger] call_ensures(closure, (inner, &params), *output)
                        &&& final(ctx)@ == final(inner)@.with_current(old(ctx)@.current)
                    }
            },
            !(changed || old(self)@.must_run(old(ctx)@)) ==> old(self)@.reused(
                old(ctx)@,
                final(self)@,
                final(ctx)@,
                *output,
            ),
    {
        let mut closure = closure;
        let me = ctx.attach(self.this);
        self.this = Some(me);
        ctx.track_consumer(me);
        let stale = changed || ctx.is_dirty(me) || self.last_input.is_none() || self.result.is_none();
        if stale {
            self.last_input = Some(params);
            // Nothing is cached while the closure runs: should it not come back, the next
            // call runs it again.
            self.result = None;
            let previous = ctx.begin_run(me);
            let out = match &self.last_input {
                Some(input) => closure(ctx, input),
                None => vstd::pervasive::unreached(),
            };
            ctx.resume(previous);
            self.result = Some(out);
        }
        match &self.result {
            Some(output) => output,
            None => vstd::pervasive::unreached(),
        }
    }

    /// The memoized call. The active consumer is entered in the node's downstream list.
    /// Then the closure runs if the node is stale or `params` differs from the input of the
    /// last run, and the cached output is handed out otherwise. The inputs are compared with
    /// `!=`, and only where the node is not stale.
    ///
    /// Before a run the node becomes clean, moves one generation on and becomes the active
    /// consumer; after it the caller's consumer is active again.
    pub fn call<F: FnMut(&mut RxCtx, &I) -> O>(&mut self, ctx: &mut RxCtx, params: I, closure: F) -> (output: &O)
        requires
            old(ctx)@.generation_of(old(self)@.consumer) < u64::MAX,
            forall|inner: &mut RxCtx|
                inner@ == old(self)@.running(old(ctx)@) ==> #[trigger] call_requires(
                    closure,
                    (inner, &params),
                ),
        ensures
            final(self)@.consumer == Some(old(ctx)@.slot(old(self)@.consumer)),
            ({
                let ran = {
                    &&& old(self)@.stored(params, final(self)@, *output)
                    &&& exists|inner: &mut RxCtx|
                        {
                            &&& inner@ == old(self)@.running(old(ctx)@)
                            &&& #[trigger] call_ensures(closure, (inner, &params), *output)
                            &&& final(ctx)@ == final(inner)@.with_current(old(ctx)@.current)
                        }
                };
                let reused = old(self)@.reused(old(ctx)@, final(self)@, final(ctx)@, *output);
                &&& ran || reused
                &&& old(self)@.must_run(old(ctx)@) ==> ran
                &&& I::obeys_eq_spec() && !old(self)@.must_run(old(ctx)@) ==> if old(
                    self,
                )@.last_input->0.eq_spec(&params) {
                    reused
                } else {
                    ran
                }
            }),
    {
        let changed = if self.is_stale(ctx) {
            true
        } else {
            match &self.last_input {
                Some(last) => *last != params,
                None => true,
            }
        };
        self.call_if(ctx, changed, params, closure)
    }

    /// Gives the node up: its consumer expires, and the links that lead to it leave each
    /// downstream list the next time that the list is walked.
    pub fn retire(self, ctx: &mut RxCtx)
        ensures
            final(ctx)@ == match self@.consumer {
                Some(d) => old(ctx)@.expire(d),
                None => old(ctx)@,
            },
    {
        ctx.expire(self.this);
    }
}

impl<I: PartialEq, O> Default for RxFn<I, O> {
    fn default() -> (node: Self)
        ensures
            node@ == (Memo::<I, O> { last_input: None, cached: None, consumer: None }),
    {
        RxFn::new()
    }
}

impl<I: PartialEq, O> Clone for RxFn<I, O> {
    /// A clone shares nothing with the node it was made from: it has never run.
    fn clone(&self) -> (node: Self)
        ensures
            node@ == (Memo::<I, O> { last_input: None, cached: None, consumer: None }),
    {
        RxFn::new()
    }
}

} // verus!
