//! Identifiers.
//!
//! A context hands out identifiers in rising order and never twice. An [`Id`] is owned by
//! what it identifies; an [`IdRef`] is the form that can be copied, compared and kept as a
//! key. Neither can be sent to another thread.

use std::marker::PhantomData;
use std::rc::Rc;
use vstd::prelude::*;
use crate::context::RxCtx;

verus! {

/// The identifier that a container or an entry owns.
#[derive(Debug)]
pub struct Id(u64, PhantomData<Rc<()>>);

/// An identifier to compare and to keep.
#[derive(Clone, Copy, Debug)]
pub struct IdRef(u64, PhantomData<Rc<()>>);

impl View for Id {
    type V = nat;

    closed spec fn view(&self) -> nat {
        self.0 as nat
    }
}

impl View for IdRef {
    type V = nat;

    closed spec fn view(&self) -> nat {
        self.0 as nat
    }
}

impl Id {
    /// The next identifier of the context.
    pub(crate) fn new(ctx: &mut RxCtx) -> (id: Id)
        requires
            old(ctx)@.next_id < u64::MAX,
        ensures
            id@ == old(ctx)@.next_id,
            final(ctx)@ == old(ctx)@.issue_id(),
    {
        Id(ctx.issue_id(), PhantomData)
    }
}

impl Id {
    /// A reference to the identifier.
    pub fn reference(&self) -> (reference: IdRef)
        ensures
            reference@ == self@,
    {
        IdRef(self.0, PhantomData)
    }
}

impl IdRef {
    /// The reference to the identifier with the number `number`.
    pub closed spec fn of(number: nat) -> IdRef {
        IdRef(number as u64, PhantomData)
    }
}

impl PartialEq for IdRef {
    fn eq(&self, other: &IdRef) -> (same: bool) {
        self.0 == other.0
    }
}

impl Eq for IdRef {

}

impl PartialEq<Id> for IdRef {
    fn eq(&self, other: &Id) -> (same: bool) {
        self.0 == other.0
    }
}

impl<'a> From<&'a Id> for IdRef {
    fn from(id: &'a Id) -> (reference: IdRef) {
        IdRef(id.0, PhantomData)
    }
}

impl vstd::std_specs::cmp::PartialEqSpecImpl for IdRef {
    open spec fn obeys_eq_spec() -> bool {
        true
    }

    open spec fn eq_spec(&self, other: &IdRef) -> bool {
        self@ == other@
    }
}

impl vstd::std_specs::cmp::PartialEqSpecImpl<Id> for IdRef {
    open spec fn obeys_eq_spec() -> bool {
        true
    }

    open spec fn eq_spec(&self, other: &Id) -> bool {
        self@ == other@
    }
}

impl<'a> vstd::std_specs::convert::FromSpecImpl<&'a Id> for IdRef {
    open spec fn obeys_from_spec() -> bool {
        true
    }

    open spec fn from_spec(id: &'a Id) -> IdRef {
        IdRef::of(id@)
    }
}

/// The reference made from an identifier has the number of that identifier.
pub proof fn reference_keeps_number(id: &Id)
    ensures
        IdRef::of(id@)@ == id@,
{
}

} // verus!
