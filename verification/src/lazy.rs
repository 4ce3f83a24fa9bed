//! Exactly-once lazy initialization for mutable global state on a
//! single-threaded device, without atomics.
//!
//! The "already initialized" flag is a byte compared against a specific
//! non-zero marker — not against zero — because the target's
//! uninitialized memory may hold any non-marker garbage pattern. A ghost
//! counter tracks how many times the constructor ran, and the cell's
//! invariant keeps it at one from first access onward.

use vstd::prelude::*;

verus! {

/// The sentinel value that marks a cell as initialized.
pub const LAZY_INIT_MARKER: u8 = 1;

/// A deferred, exactly-once initialized cell.
pub struct Lazy<T> {
    sentinel: u8,
    slot: Option<T>,
    inits: Ghost<nat>,
}

impl<T> Lazy<T> {
    /// Whether the cell considers itself initialized: the sentinel holds
    /// the marker.
    pub closed spec fn spec_initialized(self) -> bool {
        self.sentinel == LAZY_INIT_MARKER
    }

    /// The stored value, once initialized.
    pub closed spec fn spec_value(self) -> T {
        self.slot->0
    }

    /// How many times the constructor has run.
    pub closed spec fn spec_inits(self) -> nat {
        self.inits@
    }

    /// The cell's invariant: the sentinel and the slot agree, and the
    /// constructor ran exactly once if and only if the cell is
    /// initialized.
    pub closed spec fn inv(self) -> bool {
        &&& self.spec_initialized() <==> self.slot is Some
        &&& self.spec_inits() == if self.spec_initialized() {
            1nat
        } else {
            0nat
        }
    }

    /// A cell over memory holding the garbage byte `raw`.
    ///
    /// Any non-marker pattern is tolerated — the device's uninitialized
    /// memory is not guaranteed to be zero-filled.
    pub fn from_memory(raw: u8) -> (r: Self)
        requires
            raw != LAZY_INIT_MARKER,
        ensures
            r.inv(),
            !r.spec_initialized(),
            r.spec_inits() == 0,
    {
        Lazy { sentinel: raw, slot: None, inits: Ghost(0nat) }
    }

    /// A fresh uninitialized cell.
    pub fn new() -> (r: Self)
        ensures
            r.inv(),
            !r.spec_initialized(),
            r.spec_inits() == 0,
    {
        Self::from_memory(0)
    }

    /// Run the constructor if this is the first access; afterwards the
    /// cell is initialized and the constructor has run exactly once,
    /// however many accesses came before.
    fn init_if_needed<F: FnOnce() -> T>(&mut self, ctor: F)
        requires
            old(self).inv(),
            call_requires(ctor, ()),
        ensures
            final(self).inv(),
            final(self).spec_initialized(),
            final(self).spec_inits() == 1,
            old(self).spec_initialized() ==> *final(self) == *old(self),
            !old(self).spec_initialized() ==> call_ensures(ctor, (), final(self).spec_value()),
    {
        if self.sentinel != LAZY_INIT_MARKER {
            let value = ctor();
            self.slot = Some(value);
            self.sentinel = LAZY_INIT_MARKER;
            proof {
                self.inits@ = 1nat;
            }
        }
    }

    /// Read the value, initializing the cell on first access.
    pub fn get<F: FnOnce() -> T>(&mut self, ctor: F) -> (r: &T)
        requires
            old(self).inv(),
            call_requires(ctor, ()),
        ensures
            final(self).inv(),
            final(self).spec_initialized(),
            final(self).spec_inits() == 1,
            r == final(self).spec_value(),
            old(self).spec_initialized() ==> *final(self) == *old(self),
            !old(self).spec_initialized() ==> call_ensures(ctor, (), final(self).spec_value()),
    {
        self.init_if_needed(ctor);
        match &self.slot {
            Some(v) => v,
            None => vstd::pervasive::unreached(),
        }
    }

    /// Mutable access to the value, initializing the cell on first
    /// access. Mutation after initialization is allowed; the constructor
    /// still runs at most once.
    pub fn get_mut<F: FnOnce() -> T>(&mut self, ctor: F) -> (r: &mut T)
        requires
            old(self).inv(),
            call_requires(ctor, ()),
        ensures
            final(self).inv(),
            final(self).spec_initialized(),
            final(self).spec_inits() == 1,
            final(self).spec_value() == *final(r),
            old(self).spec_initialized() ==> *r == old(self).spec_value(),
            !old(self).spec_initialized() ==> call_ensures(ctor, (), *r),
    {
        self.init_if_needed(ctor);
        match &mut self.slot {
            Some(v) => v,
            None => vstd::pervasive::unreached(),
        }
    }
}

} // verus!
