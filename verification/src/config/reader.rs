//! Guard for reading the configuration of the application.

use vstd::prelude::*;
use crate::application::lock::Lock;
use crate::application::Application;
use crate::component::Component;
use crate::error::FrameworkError;

verus! {

/// Read access to the configuration of the application under a lock. The
/// lock is held for reading until the guard goes out of scope.
#[verifier::reject_recursive_types(C)]
pub struct Reader<C: Component + 'static>(crate::application::lock::reader::Reader<Application<C>>);

impl<C: Component + 'static> Reader<C> {
    /// Acquires the lock of `app_cell` for reading.
    ///
    /// Fails only if the lock is poisoned; what is returned for each outcome
    /// of the acquisition is what `over` says.
    ///
    /// A thread that holds a writer of this lock must not call this: the
    /// call may panic or never return.
    pub fn new(app_cell: &'static Lock<Application<C>>) -> (r: Result<Self, FrameworkError>)
        ensures
            r matches Err(e) ==> e == FrameworkError::LockPoisoned,
    {
        Self::over(app_cell.read())
    }

    /// The application under the lock, if one has been set.
    pub fn application(&self) -> Option<&Application<C>> {
        self.0.get()
    }

    /// The configuration of the application, if an application has been set
    /// and its configuration is loaded: what `configuration` finds for the
    /// application under the lock.
    pub fn get(&self) -> Option<&C::Config> {
        configuration(self.0.get())
    }

    /// The reader of the lock that this reader holds.
    pub closed spec fn reader(&self) -> crate::application::lock::reader::Reader<Application<C>> {
        self.0
    }

    /// What `new` returns for each outcome of acquiring the lock: the reader
    /// over the guard, or the error as it is.
    pub fn over(
        outcome: Result<crate::application::lock::reader::Reader<Application<C>>, FrameworkError>,
    ) -> (r: Result<Self, FrameworkError>)
        ensures
            match outcome {
                Ok(held) => r matches Ok(reader) && reader.reader() == held,
                Err(e) => r matches Err(same) && same == e,
            },
    {
        match outcome {
            Ok(held) => Ok(Reader(held)),
            Err(e) => Err(e),
        }
    }
}

/// The configuration of the application in a slot: none if the slot is
/// empty or the configuration of the application is not loaded.
pub fn configuration<C: Component>(state: Option<&Application<C>>) -> (r: Option<&C::Config>)
    ensures
        match r {
            Some(config) => state matches Some(app) && app.config_value() == Some(*config),
            None => state matches Some(app) ==> app.config_value() is None,
        },
{
    match state {
        Some(app) => app.config(),
        None => None,
    }
}

} // verus!
