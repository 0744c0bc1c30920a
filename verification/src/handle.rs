//! Ownership of native resources.
//!
//! The library never touches a native resource. It holds the number that
//! stands for one, says when the resource is to be released, and hands the
//! number back for that.

use vstd::prelude::*;
use vstd::multiset::Multiset;

verus! {

/// The one owner of a live native resource.
///
/// A handle cannot be copied, and a failed acquisition has no handle at all.
/// Whoever holds the handle owes the resource one release.
#[derive(Debug)]
pub struct NativeHandle {
    raw: usize,
}

impl View for NativeHandle {
    type V = usize;

    closed spec fn view(&self) -> usize {
        self.raw
    }
}

/// The reference that an optional handle stands for, if any.
pub open spec fn reference_of(handle: Option<NativeHandle>) -> Option<usize> {
    match handle {
        Some(h) => Some(h@),
        None => None,
    }
}

/// The references that a step hands out for release: the one, or none.
pub open spec fn released_by(release: Option<usize>) -> Multiset<usize> {
    match release {
        Some(raw) => Multiset::singleton(raw),
        None => Multiset::empty(),
    }
}

impl NativeHandle {
    #[verifier::type_invariant]
    spec fn is_live(self) -> bool {
        self.raw != 0
    }

    /// Takes ownership of the resource behind `raw`, the result of a native
    /// acquisition. A null reference is a failed acquisition and gives no
    /// handle.
    pub fn adopt(raw: usize) -> (handle: Option<NativeHandle>)
        ensures
            reference_of(handle) == if raw == 0 {
                None
            } else {
                Some(raw)
            },
    {
        if raw == 0 {
            None
        } else {
            Some(NativeHandle { raw })
        }
    }

    /// The reference to hand to a native call. The handle keeps the
    /// ownership.
    pub fn raw(&self) -> (raw: usize)
        ensures
            raw == self@,
            raw != 0,
    {
        proof {
            use_type_invariant(self);
        }
        self.raw
    }

    /// Gives the ownership up: the caller releases the reference returned,
    /// once.
    pub fn release(self) -> (raw: usize)
        ensures
            raw == self@,
            raw != 0,
    {
        proof {
            use_type_invariant(&self);
        }
        self.raw
    }
}

} // verus!
