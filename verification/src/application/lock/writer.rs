//! Exclusive access to the state of the application.

use vstd::prelude::*;
use std::sync::RwLockWriteGuard;
use crate::application::lock::{write_guard_mut, write_guard_ref};
use crate::application::state::{loaded, loaded_mut};

verus! {

/// Guard for changing the state of the application. The lock is released
/// when the guard goes out of scope.
#[verifier::reject_recursive_types(A)]
pub struct Writer<A: 'static>(RwLockWriteGuard<'static, Option<A>>);

impl<A> Writer<A> {
    /// Wraps an exclusive guard of the lock: the writer holds that guard.
    pub(crate) fn new(guard: RwLockWriteGuard<'static, Option<A>>) -> (r: Self)
        ensures
            r.guard() == guard,
    {
        Writer(guard)
    }

    /// The application, if one has been set: what `loaded` finds in the slot
    /// that the guard gives access to.
    pub fn get(&self) -> Option<&A> {
        loaded(write_guard_ref(&self.0))
    }

    /// The application, if one has been set, for changing it: what
    /// `loaded_mut` finds in the slot that the guard gives access to. The
    /// slot itself cannot be emptied through this.
    pub fn get_mut(&mut self) -> Option<&mut A> {
        loaded_mut(write_guard_mut(&mut self.0))
    }

    /// The guard of the lock that this writer holds.
    pub closed spec fn guard(&self) -> RwLockWriteGuard<'static, Option<A>> {
        self.0
    }
}

} // verus!
