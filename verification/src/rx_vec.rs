//! Sequence cells.

use vstd::prelude::*;
use crate::context::RxCtx;
use crate::id::{Id, IdRef};

verus! {

/// One entry of a sequence cell: a value and the identifier it was given when it entered
/// the sequence. The identifier stays with the entry for good.
#[derive(Debug)]
pub struct RxVecValue<T> {
    id: Id,
    pub value: T,
}

impl<T> RxVecValue<T> {
    /// The number of the entry's identifier.
    pub closed spec fn ident(&self) -> nat {
        self.id@
    }

    /// The entry's value.
    pub closed spec fn val(&self) -> T {
        self.value
    }

    /// The entry's identifier.
    pub fn id(&self) -> (id: IdRef)
        ensures
            id@ == self.ident(),
    {
        self.id.reference()
    }
}

/// A cell that holds a sequence. It is one source: a read of the sequence or of an entry
/// makes the active consumer depend on the whole cell, and a new entry dirties every consumer
/// that a change of the cell concerns. A change of one entry in its place dirties nobody.
#[derive(Debug)]
pub struct RxVec<T> {
    id: Id,
    content: Vec<RxVecValue<T>>,
    source: usize,
}

impl<T> View for RxVec<T> {
    type V = Seq<RxVecValue<T>>;

    closed spec fn view(&self) -> Seq<RxVecValue<T>> {
        self.content@
    }
}

impl<T> RxVec<T> {
    /// The number of the cell's identifier.
    pub closed spec fn ident(&self) -> nat {
        self.id@
    }

    /// The number under which the context keeps the cell's downstream list.
    pub closed spec fn source(&self) -> nat {
        self.source as nat
    }

    /// An empty sequence with an identifier of its own, read by nobody.
    pub fn new(ctx: &mut RxCtx) -> (cell: Self)
        requires
            old(ctx)@.next_id < u64::MAX,
        ensures
            cell@.len() == 0,
            cell.ident() == old(ctx)@.next_id,
            cell.source() == old(ctx)@.sources.len(),
            final(ctx)@ == old(ctx)@.issue_id().add_source(),
    {
        let id = Id::new(ctx);
        let source = ctx.add_source();
        RxVec { id, content: Vec::new(), source }
    }

    /// The cell's identifier.
    pub fn id(&self) -> (id: IdRef)
        ensures
            id@ == self.ident(),
    {
        self.id.reference()
    }

    /// How many entries the sequence holds. Nothing is tracked.
    pub fn len(&self) -> (len: usize)
        ensures
            len == self@.len(),
    {
        self.content.len()
    }

    /// Adds `value` at the end, under the next identifier of the context. Every consumer
    /// that a change of the cell concerns is dirty afterwards. The entries that were there
    /// stay as they are.
    pub fn push(&mut self, ctx: &mut RxCtx, value: T)
        requires
            old(ctx)@.next_id < u64::MAX,
        ensures
            final(self)@.len() == old(self)@.len() + 1,
            final(self)@.drop_last() == old(self)@,
            final(self)@.last().val() == value,
            final(self)@.last().ident() == old(ctx)@.next_id,
            final(self).ident() == old(self).ident(),
            final(self).source() == old(self).source(),
            final(ctx)@ == old(ctx)@.invalidate(old(self).source()).issue_id(),
    {
        ctx.invalidate(self.source);
        let id = Id::new(ctx);
        self.content.push(RxVecValue { id, value });
    }

    /// Hands out the entries and enters the active consumer in the cell's downstream list.
    pub fn as_slice(&self, ctx: &mut RxCtx) -> (entries: &[RxVecValue<T>])
        ensures
            entries@ == self@,
            final(ctx)@ == old(ctx)@.track_source(self.source()),
    {
        ctx.track_source(self.source);
        self.content.as_slice()
    }

    /// Hands out the value of the entry at `index`, if there is one, and enters the active
    /// consumer in the cell's downstream list in either case.
    pub fn get(&self, ctx: &mut RxCtx, index: usize) -> (value: Option<&T>)
        ensures
            value == if index < self@.len() {
                Some(&self@[index as int].val())
            } else {
                None
            },
            final(ctx)@ == old(ctx)@.track_source(self.source()),
    {
        ctx.track_source(self.source);
        if index < self.content.len() {
            Some(&self.content[index].value)
        } else {
            None
        }
    }

    /// Hands out the value of the entry at `index` for a change, if there is such an entry.
    /// Nobody is dirtied, and the entry keeps its identifier.
    pub fn get_mut(&mut self, index: usize) -> (value: Option<&mut T>)
        ensures
            final(self).ident() == old(self).ident(),
            final(self).source() == old(self).source(),
            final(self)@.len() == old(self)@.len(),
            forall|i: int|
                0 <= i < old(self)@.len() && i != index ==> #[trigger] final(self)@[i] == old(self)@[i],
            index >= old(self)@.len() ==> value is None,
            index < old(self)@.len() ==> {
                &&& value is Some
                &&& *value->0 == old(self)@[index as int].val()
                &&& final(self)@[index as int].val() == *final(value->0)
                &&& final(self)@[index as int].ident() == old(self)@[index as int].ident()
            },
    {
        if index < self.content.len() {
            Some(&mut self.content[index].value)
        } else {
            None
        }
    }
}

impl<T: Clone> RxVec<T> {
    /// A sequence of its own with a clone of every value, read by nobody. The sequence and
    /// its entries get fresh identifiers: first the sequence, then the entries in their
    /// order.
    pub fn clone(&self, ctx: &mut RxCtx) -> (cell: Self)
        requires
            old(ctx)@.next_id + self@.len() < u64::MAX,
        ensures
            cell.ident() == old(ctx)@.next_id,
            cell.source() == old(ctx)@.sources.len(),
            cell@.len() == self@.len(),
            forall|i: int|
                0 <= i < self@.len() ==> {
                    &&& (#[trigger] cell@[i]).ident() == old(ctx)@.next_id + 1 + i
                    &&& cloned(self@[i].val(), cell@[i].val())
                },
            final(ctx)@ == old(ctx)@.issue_ids(self@.len() + 1).add_source(),
    {
        let id = Id::new(ctx);
        let mut content: Vec<RxVecValue<T>> = Vec::new();
        let n = self.content.len();
        let mut i: usize = 0;
        while i < n
            invariant
                i <= n,
                n == self@.len(),
                content@.len() == i,
                old(ctx)@.next_id + n < u64::MAX,
                ctx@ == old(ctx)@.issue_ids(i as nat + 1),
                forall|j: int|
                    0 <= j < i ==> {
                        &&& (#[trigger] content@[j]).ident() == old(ctx)@.next_id + 1 + j
                        &&& cloned(self@[j].val(), content@[j].val())
                    },
            decreases n - i,
        {
            let entry = RxVecValue { id: Id::new(ctx), value: self.content[i].value.clone() };
            content.push(entry);
            i += 1;
        }
        let source = ctx.add_source();
        RxVec { id, content, source }
    }
}

} // verus!
