//! A bounded byte buffer standing for the device's RAM/flash swap area.
//!
//! The capacity is split between a fast volatile region of `X` bytes and a
//! persistent region of `Y` bytes; at this level only the combined bound
//! matters: writes that would pass `X + Y` bytes fail and change nothing.

use vstd::prelude::*;

verus! {

/// Failure of a write into the backing storage.
#[derive(Clone, Copy, PartialEq, Eq, Structural, Debug)]
pub enum NVMError {
    /// The write would exceed the buffer's capacity.
    Overflow,
}

/// A buffer of at most `X + Y` bytes that accumulates appended data until
/// it is read back and reset.
pub struct SwappingBuffer<const X: usize, const Y: usize> {
    data: Vec<u8>,
}

impl<const X: usize, const Y: usize> View for SwappingBuffer<X, Y> {
    type V = Seq<u8>;

    closed spec fn view(&self) -> Seq<u8> {
        self.data@
    }
}

impl<const X: usize, const Y: usize> SwappingBuffer<X, Y> {
    /// Combined capacity of the two regions.
    pub open spec fn spec_capacity() -> nat {
        X as nat + Y as nat
    }

    /// The contents never exceed the capacity.
    pub open spec fn wf(self) -> bool {
        self@.len() <= Self::spec_capacity()
    }

    /// A fresh, empty buffer.
    pub fn new() -> (r: Self)
        requires
            X + Y <= usize::MAX,
        ensures
            r@ == Seq::<u8>::empty(),
            r.wf(),
    {
        SwappingBuffer { data: Vec::new() }
    }

    /// Append `bytes`; fails, changing nothing, when they do not fit.
    pub fn write(&mut self, bytes: &[u8]) -> (r: Result<(), NVMError>)
        requires
            old(self).wf(),
            X + Y <= usize::MAX,
        ensures
            final(self).wf(),
            old(self)@.len() + bytes@.len() <= Self::spec_capacity() ==> r is Ok && final(self)@
                == old(self)@ + bytes@,
            old(self)@.len() + bytes@.len() > Self::spec_capacity() ==> r == Err::<(), _>(
                NVMError::Overflow,
            ) && final(self)@ == old(self)@,
    {
        let cap = X + Y;
        if bytes.len() > cap - self.data.len() {
            return Err(NVMError::Overflow);
        }
        let mut i: usize = 0;
        while i < bytes.len()
            invariant
                i <= bytes@.len(),
                old(self)@.len() + bytes@.len() <= X as nat + Y as nat <= usize::MAX,
                self.data@ == old(self)@ + bytes@.take(i as int),
            decreases bytes@.len() - i,
        {
            self.data.push(bytes[i]);
            i += 1;
            proof {
                assert(old(self)@ + bytes@.take(i - 1).push(bytes@[i - 1]) =~= old(self)@
                    + bytes@.take(i as int));
            }
        }
        proof {
            assert(bytes@.take(bytes@.len() as int) =~= bytes@);
        }
        Ok(())
    }

    /// Discard the contents.
    pub fn reset(&mut self)
        ensures
            final(self)@ == Seq::<u8>::empty(),
            final(self).wf(),
    {
        self.data = Vec::new();
    }

    /// Hand out everything accumulated so far and reset the buffer.
    pub fn read_exact_and_reset(&mut self) -> (r: Vec<u8>)
        ensures
            r@ == old(self)@,
            final(self)@ == Seq::<u8>::empty(),
            final(self).wf(),
    {
        let mut out = Vec::new();
        core::mem::swap(&mut out, &mut self.data);
        out
    }
}

} // verus!
