//! Position-independent code/data relocation.
//!
//! On a relocatable target, every absolute address taken from
//! statically-linked data is off by the runtime load offset, and must be
//! corrected exactly once on every access path before use. Correcting an
//! already corrected address shifts it twice — caching corrected
//! addresses across a relocation boundary is therefore forbidden. On a
//! host build the offset is zero and the correction degenerates to the
//! identity, which is what the [`PIC`] wrapper performs.

use vstd::prelude::*;

verus! {

/// The address an uncorrected link-time address resolves to under a load
/// offset.
pub open spec fn spec_correct(addr: nat, offset: nat) -> nat {
    addr + offset
}

/// Apply the load-address correction to a link-time address, exactly
/// once.
pub fn correct(addr: usize, offset: usize) -> (r: usize)
    requires
        addr + offset <= usize::MAX,
    ensures
        r == spec_correct(addr as nat, offset as nat),
{
    addr + offset
}

/// Correction is not idempotent: under any nonzero load offset,
/// correcting twice lands somewhere else than correcting once. An
/// address must be corrected exactly once per dereference.
pub proof fn lemma_correct_once_only(addr: nat, offset: nat)
    requires
        offset > 0,
    ensures
        spec_correct(spec_correct(addr, offset), offset) != spec_correct(addr, offset),
        spec_correct(addr, 0) == addr,
{
}

/// Host-build stand-in for relocated data: the correction is the
/// identity, so the wrapper just carries its value.
pub struct PIC<T> {
    data: T,
}

impl<T> PIC<T> {
    /// The wrapped value.
    pub closed spec fn spec_value(self) -> T {
        self.data
    }

    /// Wrap a link-time value.
    pub fn new(data: T) -> (r: Self)
        ensures
            r.spec_value() == data,
    {
        PIC { data }
    }

    /// Unwrap the corrected value.
    pub fn into_inner(self) -> (r: T)
        ensures
            r == self.spec_value(),
    {
        self.data
    }

    /// Borrow the corrected value.
    pub fn get_ref(&self) -> (r: &T)
        ensures
            r == self.spec_value(),
    {
        &self.data
    }

    /// Borrow the corrected value mutably.
    pub fn get_mut(&mut self) -> (r: &mut T)
        ensures
            *r == old(self).spec_value(),
            final(self).spec_value() == *final(r),
    {
        &mut self.data
    }
}

} // verus!
