//! Unwrap helpers whose safety is a proof obligation rather than a runtime
//! check.
//!
//! The device build strips panic machinery for size, so these unwraps carry
//! a `requires` making the failing case unreachable: every caller must show
//! the value is present before unwrapping it.

use vstd::prelude::*;

verus! {

/// `unwrap`/`expect` without `Debug` bounds on the payload.
///
/// Callers must establish [`LedgerUnwrap::spec_can_unwrap`] so the failure
/// branch is provably dead.
pub trait LedgerUnwrap: Sized {
    type Item;

    /// Whether unwrapping cannot fail.
    spec fn spec_can_unwrap(&self) -> bool;

    /// The value that unwrapping yields.
    spec fn spec_item(&self) -> Self::Item;

    /// Unwrap a value that is provably present.
    fn ledger_unwrap(self) -> (r: Self::Item)
        requires
            self.spec_can_unwrap(),
        ensures
            r == self.spec_item(),
    ;

    /// Unwrap a value that is provably present, with a label for readers.
    fn ledger_expect(self, s: &str) -> (r: Self::Item)
        requires
            self.spec_can_unwrap(),
        ensures
            r == self.spec_item(),
    ;
}

impl<T, E> LedgerUnwrap for Result<T, E> {
    type Item = T;

    open spec fn spec_can_unwrap(&self) -> bool {
        self is Ok
    }

    open spec fn spec_item(&self) -> T {
        self->Ok_0
    }

    fn ledger_unwrap(self) -> (r: T) {
        match self {
            Ok(t) => t,
            Err(_) => vstd::pervasive::unreached(),
        }
    }

    fn ledger_expect(self, _s: &str) -> (r: T) {
        match self {
            Ok(t) => t,
            Err(_) => vstd::pervasive::unreached(),
        }
    }
}

impl<T> LedgerUnwrap for Option<T> {
    type Item = T;

    open spec fn spec_can_unwrap(&self) -> bool {
        self is Some
    }

    open spec fn spec_item(&self) -> T {
        self->0
    }

    fn ledger_unwrap(self) -> (r: T) {
        match self {
            Some(t) => t,
            None => vstd::pervasive::unreached(),
        }
    }

    fn ledger_expect(self, _s: &str) -> (r: T) {
        match self {
            Some(t) => t,
            None => vstd::pervasive::unreached(),
        }
    }
}

} // verus!
