//! Exclusive-access guard over the shared swap buffer, keyed by an
//! accessor token, together with the upload session state it protects.
//!
//! The lock is the sole concurrency-control primitive of the upload
//! protocol: a second accessor attempting to take it while held fails
//! immediately with `Busy` rather than blocking.

use vstd::prelude::*;
use crate::swapping_buffer::{NVMError, SwappingBuffer};

verus! {

/// Why the lock could not be taken or re-entered.
#[derive(Clone, Copy, PartialEq, Eq, Structural, Debug)]
pub enum LockError {
    /// Nobody holds the lock, but the operation needs an open session.
    NotLocked,
    /// Another accessor holds the lock.
    Busy,
    /// The lock is held, but not by this accessor.
    BadId,
}

/// Ghost summary of a lock: who holds it, the remembered first-chunk
/// length, and what the guarded buffer holds.
pub struct LockView {
    pub owner: Option<u32>,
    pub init_len: nat,
    pub contents: Seq<u8>,
}

/// The swap buffer together with its accessor lock and the remembered
/// first-chunk length of the running upload session.
pub struct Lock<const X: usize, const Y: usize> {
    owner: Option<u32>,
    init_len: usize,
    buffer: SwappingBuffer<X, Y>,
}

impl<const X: usize, const Y: usize> View for Lock<X, Y> {
    type V = LockView;

    closed spec fn view(&self) -> LockView {
        LockView { owner: self.owner, init_len: self.init_len as nat, contents: self.buffer@ }
    }
}

impl<const X: usize, const Y: usize> Lock<X, Y> {
    /// At rest, a held lock always guards at least the tag byte plus the
    /// remembered first chunk, and the contents fit the capacity.
    pub open spec fn inv(self) -> bool {
        &&& self@.contents.len() <= X as nat + Y as nat
        &&& (self@.owner is Some ==> 1 + self@.init_len <= self@.contents.len())
    }

    /// Wrap a fresh buffer; nobody holds the lock.
    pub fn new(buffer: SwappingBuffer<X, Y>) -> (r: Self)
        requires
            buffer.wf(),
        ensures
            r@.owner is None,
            r@.init_len == 0,
            r@.contents == buffer@,
            r.inv(),
    {
        Lock { owner: None, init_len: 0, buffer }
    }

    /// Take the lock for `acc`, or re-enter it if `acc` already holds it;
    /// fails with `Busy` while another accessor holds it.
    pub fn lock(&mut self, acc: u32) -> (r: Result<(), LockError>)
        ensures
            final(self)@.init_len == old(self)@.init_len,
            final(self)@.contents == old(self)@.contents,
            old(self)@.owner is None || old(self)@.owner == Some(acc) ==> r is Ok && final(self)@.owner == Some(acc),
            !(old(self)@.owner is None || old(self)@.owner == Some(acc)) ==> r == Err::<(), _>(
                LockError::Busy,
            ) && final(self)@.owner == old(self)@.owner,
    {
        match self.owner {
            None => {
                self.owner = Some(acc);
                Ok(())
            },
            Some(a) => {
                if a == acc {
                    Ok(())
                } else {
                    Err(LockError::Busy)
                }
            },
        }
    }

    /// Re-enter a lock that `acc` must already hold: `NotLocked` when
    /// free, `BadId` when held by someone else.
    pub fn acquire(&self, acc: u32) -> (r: Result<(), LockError>)
        ensures
            self@.owner is None ==> r == Err::<(), _>(LockError::NotLocked),
            self@.owner matches Some(a) && a != acc ==> r == Err::<(), _>(LockError::BadId),
            self@.owner == Some(acc) <==> r is Ok,
    {
        match self.owner {
            None => Err(LockError::NotLocked),
            Some(a) => {
                if a == acc {
                    Ok(())
                } else {
                    Err(LockError::BadId)
                }
            },
        }
    }

    /// Drop the lock without touching the buffer.
    pub fn release(&mut self)
        ensures
            final(self)@.owner is None,
            final(self)@.init_len == old(self)@.init_len,
            final(self)@.contents == old(self)@.contents,
    {
        self.owner = None;
    }

    /// Empty the guarded buffer and forget the first-chunk length.
    pub fn reset_buffer(&mut self)
        ensures
            final(self)@.owner == old(self)@.owner,
            final(self)@.init_len == 0,
            final(self)@.contents == Seq::<u8>::empty(),
    {
        self.init_len = 0;
        self.buffer.reset();
    }

    /// Append to the guarded buffer; fails, changing nothing, when the
    /// bytes do not fit.
    pub fn write_buffer(&mut self, bytes: &[u8]) -> (r: Result<(), NVMError>)
        requires
            old(self)@.contents.len() <= X as nat + Y as nat,
            X + Y <= usize::MAX,
        ensures
            final(self)@.owner == old(self)@.owner,
            final(self)@.init_len == old(self)@.init_len,
            old(self)@.contents.len() + bytes@.len() <= X as nat + Y as nat ==> r is Ok && final(self)@.contents == old(self)@.contents + bytes@,
            old(self)@.contents.len() + bytes@.len() > X as nat + Y as nat ==> r == Err::<(), _>(
                NVMError::Overflow,
            ) && final(self)@.contents == old(self)@.contents,
    {
        self.buffer.write(bytes)
    }

    /// Remember the declared first-chunk length of the running session.
    pub fn set_init_len(&mut self, n: usize)
        ensures
            final(self)@.owner == old(self)@.owner,
            final(self)@.init_len == n as nat,
            final(self)@.contents == old(self)@.contents,
    {
        self.init_len = n;
    }

    /// The remembered first-chunk length.
    pub fn init_len(&self) -> (r: usize)
        ensures
            r as nat == self@.init_len,
    {
        self.init_len
    }

    /// Hand out the accumulated bytes, reset the buffer and release the
    /// lock: the end of an upload session.
    pub fn read_exact_and_reset(&mut self) -> (r: Vec<u8>)
        ensures
            r@ == old(self)@.contents,
            final(self)@.owner is None,
            final(self)@.init_len == 0,
            final(self)@.contents == Seq::<u8>::empty(),
            final(self).inv(),
    {
        self.owner = None;
        self.init_len = 0;
        self.buffer.read_exact_and_reset()
    }
}

} // verus!
