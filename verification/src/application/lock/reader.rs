//! Shared, read-only access to the state of the application.

use vstd::prelude::*;
use std::sync::RwLockReadGuard;
use crate::application::lock::read_guard_ref;
use crate::application::state::loaded;

verus! {

/// Guard for reading the state of the application. The lock is released when
/// the guard goes out of scope.
#[verifier::reject_recursive_types(A)]
pub struct Reader<A: 'static>(RwLockReadGuard<'static, Option<A>>);

impl<A> Reader<A> {
    /// Wraps a shared guard of the lock: the reader holds that guard.
    pub(crate) fn new(guard: RwLockReadGuard<'static, Option<A>>) -> (r: Self)
        ensures
            r.guard() == guard,
    {
        Reader(guard)
    }

    /// The application, if one has been set: what `loaded` finds in the slot
    /// that the guard gives access to.
    pub fn get(&self) -> Option<&A> {
        loaded(read_guard_ref(&self.0))
    }

    /// The guard of the lock that this reader holds.
    pub closed spec fn guard(&self) -> RwLockReadGuard<'static, Option<A>> {
        self.0
    }
}

} // verus!
