//! Thread-safe access to the state of the application.

pub mod reader;
pub mod writer;

use vstd::prelude::*;
use std::sync::{PoisonError, RwLock, RwLockReadGuard, RwLockWriteGuard};
use crate::application::lock::reader::Reader;
use crate::application::lock::writer::Writer;
use crate::application::state::install;
use crate::error::FrameworkError;

verus! {

/// `std::sync::RwLock`, carried as an opaque value.
#[verifier::external_type_specification]
#[verifier::external_body]
#[verifier::reject_recursive_types(T)]
pub struct ExRwLock<T: ?Sized>(RwLock<T>);

/// `std::sync::RwLockReadGuard`, carried as an opaque value.
#[verifier::external_type_specification]
#[verifier::external_body]
#[verifier::reject_recursive_types(T)]
pub struct ExRwLockReadGuard<'a, T: ?Sized>(RwLockReadGuard<'a, T>);

/// `std::sync::RwLockWriteGuard`, carried as an opaque value.
#[verifier::external_type_specification]
#[verifier::external_body]
#[verifier::reject_recursive_types(T)]
pub struct ExRwLockWriteGuard<'a, T: ?Sized + 'a>(RwLockWriteGuard<'a, T>);

/// `std::sync::PoisonError`, carried as an opaque value.
#[verifier::external_type_specification]
#[verifier::external_body]
#[verifier::reject_recursive_types(T)]
pub struct ExPoisonError<T>(PoisonError<T>);

/// `RwLock::new`: a lock around `value`, unlocked. Nothing is claimed of it.
#[verifier::external_body]
fn rwlock_new<T>(value: T) -> RwLock<T> {
    RwLock::new(value)
}

/// `RwLock::read`: waits until no writer holds the lock, then returns a
/// shared guard, or the poison error if a writer panicked while holding it.
/// Which of the two comes back depends on what other threads did: nothing is
/// claimed of it. A thread that already holds the lock must not call this.
#[verifier::external_body]
fn rwlock_read<'a, T>(lock: &'a RwLock<T>) -> Result<
    RwLockReadGuard<'a, T>,
    PoisonError<RwLockReadGuard<'a, T>>,
> {
    lock.read()
}

/// `RwLock::write`: waits until nobody holds the lock, then returns an
/// exclusive guard, or the poison error if a writer panicked while holding
/// it. Nothing is claimed of which comes back. A thread that already holds
/// the lock must not call this.
#[verifier::external_body]
fn rwlock_write<'a, T>(lock: &'a RwLock<T>) -> Result<
    RwLockWriteGuard<'a, T>,
    PoisonError<RwLockWriteGuard<'a, T>>,
> {
    lock.write()
}

/// `Deref::deref` of a shared guard: the value under the lock. What it holds
/// depends on what other threads wrote: nothing is claimed of it.
#[verifier::external_body]
pub(crate) fn read_guard_ref<'b, 'a, T>(guard: &'b RwLockReadGuard<'a, T>) -> &'b T {
    &**guard
}

/// `Deref::deref` of an exclusive guard: the value under the lock. Nothing is
/// claimed of it.
#[verifier::external_body]
pub(crate) fn write_guard_ref<'b, 'a, T>(guard: &'b RwLockWriteGuard<'a, T>) -> &'b T {
    &**guard
}

/// `DerefMut::deref_mut` of an exclusive guard: the value under the lock, for
/// changing it. Nothing is claimed of it.
#[verifier::external_body]
pub(crate) fn write_guard_mut<'b, 'a, T>(guard: &'b mut RwLockWriteGuard<'a, T>) -> &'b mut T {
    &mut **guard
}

/// Lock around the state of the application.
///
/// Any number of readers may hold it at once, or one writer, never both. It
/// starts out empty and is filled by `set`; nothing empties it again.
#[verifier::reject_recursive_types(A)]
pub struct Lock<A>(RwLock<Option<A>>);

impl<A> Lock<A> {
    /// A lock that holds no application yet.
    pub fn new() -> Self {
        Lock(rwlock_new(None))
    }

    /// Acquires the lock for reading, together with any number of other
    /// readers. Waits while a writer holds it.
    ///
    /// Fails only if the lock is poisoned; what is returned for each outcome
    /// of the acquisition is what `reading` says.
    ///
    /// A thread that already holds this lock, through a reader or a writer
    /// that is still alive, must not call this: the call may panic or never
    /// return.
    pub fn read(&'static self) -> (r: Result<Reader<A>, FrameworkError>)
        ensures
            r matches Err(e) ==> e == FrameworkError::LockPoisoned,
    {
        reading(rwlock_read(&self.0))
    }

    /// Acquires the lock for writing, alone. Waits while anyone holds it.
    ///
    /// Fails only if the lock is poisoned; what is returned for each outcome
    /// of the acquisition is what `writing` says.
    ///
    /// A thread that already holds this lock, through a reader or a writer
    /// that is still alive, must not call this: the call may panic or never
    /// return.
    pub fn write(&'static self) -> (r: Result<Writer<A>, FrameworkError>)
        ensures
            r matches Err(e) ==> e == FrameworkError::LockPoisoned,
    {
        writing(rwlock_write(&self.0))
    }

    /// Puts `new_app` under the lock, in place of what was there.
    ///
    /// Fails only if the lock is poisoned; `new_app` is then dropped. What is
    /// done for each outcome of the acquisition is what `storing` says.
    ///
    /// A thread that already holds this lock, through a reader or a writer
    /// that is still alive, must not call this: the call may panic or never
    /// return.
    pub fn set(&self, new_app: A) -> (r: Result<(), FrameworkError>)
        ensures
            r matches Err(e) ==> e == FrameworkError::LockPoisoned,
    {
        storing(rwlock_write(&self.0), new_app)
    }
}

impl<A> Default for Lock<A> {
    /// A lock that holds no application yet.
    fn default() -> Self {
        Lock::new()
    }
}

/// The error for a poisoned lock: a writer panicked while it held the lock,
/// so the state under it cannot be trusted.
///
/// The guard inside `e` is released.
pub fn poisoned<Guard>(e: PoisonError<Guard>) -> (r: FrameworkError)
    ensures
        r == FrameworkError::LockPoisoned,
{
    FrameworkError::LockPoisoned
}

/// What `Lock::read` returns for each outcome of acquiring the lock: the
/// reader that holds the guard, or the error for a poisoned lock.
pub fn reading<A>(
    outcome: Result<
        RwLockReadGuard<'static, Option<A>>,
        PoisonError<RwLockReadGuard<'static, Option<A>>>,
    >,
) -> (r: Result<Reader<A>, FrameworkError>)
    ensures
        match outcome {
            Ok(guard) => r matches Ok(reader) && reader.guard() == guard,
            Err(_) => r matches Err(e) && e == FrameworkError::LockPoisoned,
        },
{
    match outcome {
        Ok(guard) => Ok(Reader::new(guard)),
        Err(e) => Err(poisoned(e)),
    }
}

/// What `Lock::write` returns for each outcome of acquiring the lock: the
/// writer that holds the guard, or the error for a poisoned lock.
pub fn writing<A>(
    outcome: Result<
        RwLockWriteGuard<'static, Option<A>>,
        PoisonError<RwLockWriteGuard<'static, Option<A>>>,
    >,
) -> (r: Result<Writer<A>, FrameworkError>)
    ensures
        match outcome {
            Ok(guard) => r matches Ok(writer) && writer.guard() == guard,
            Err(_) => r matches Err(e) && e == FrameworkError::LockPoisoned,
        },
{
    match outcome {
        Ok(guard) => Ok(Writer::new(guard)),
        Err(e) => Err(poisoned(e)),
    }
}

/// What `Lock::set` does for each outcome of acquiring the lock: with the
/// guard it installs `new_app` in the slot and succeeds; for a poisoned lock
/// it fails and `new_app` is dropped.
pub fn storing<'a, A>(
    outcome: Result<
        RwLockWriteGuard<'a, Option<A>>,
        PoisonError<RwLockWriteGuard<'a, Option<A>>>,
    >,
    new_app: A,
) -> (r: Result<(), FrameworkError>)
    ensures
        match outcome {
            Ok(_) => r is Ok,
            Err(_) => r matches Err(e) && e == FrameworkError::LockPoisoned,
        },
{
    match outcome {
        Ok(mut guard) => {
            install(write_guard_mut(&mut guard), new_app);
            Ok(())
        },
        Err(e) => Err(poisoned(e)),
    }
}

} // verus!
