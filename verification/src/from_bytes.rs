//! Deserialization interface for objects parsed out of byte buffers.

use vstd::prelude::*;

verus! {

/// An object that can parse itself from the front of a byte buffer.
///
/// Implementors live with the transaction formats of each application;
/// higher-level containers such as
/// [`crate::object_list::ObjectList`] generalize over them.
pub trait FromBytes: Sized {
    /// The concrete error type to return in case of failure.
    type Error;

    /// Parse one object from the front of `input`, returning how many
    /// bytes it consumed. A parser must consume at least one byte, so
    /// that repeated parsing makes progress.
    fn from_bytes(input: &[u8]) -> (r: Result<(usize, Self), Self::Error>)
        ensures
            r matches Ok(p) ==> 1 <= p.0 <= input@.len(),
    ;
}

} // verus!
