//! A component that owns an asynchronous runtime until the runtime is
//! started.

use vstd::prelude::*;
use vstd::string::*;
use core::marker::PhantomData;
use crate::component::name::Name;
use crate::component::{Component, Version};
use crate::error::{ErrorView, FrameworkError};

verus! {

/// Identity of the runtime component.
pub fn id() -> (r: Name)
    ensures
        r@ == "abscissa::runtime::TokioComponent"@,
{
    Name("abscissa::runtime::TokioComponent")
}

/// Component which holds a Tokio runtime `R` from the time the application
/// is built until the runtime is started: whoever starts it takes it out.
pub struct TokioComponent<R, Cfg> {
    runtime: Option<R>,
    config: PhantomData<Cfg>,
}

/// What is reported when the runtime is asked for after it was taken.
pub open spec fn taken_message() -> Seq<char> {
    "Tokio runtime has already been taken!"@
}

/// What is reported when the runtime could not be started, with the cause.
pub open spec fn start_failure_message(cause: Seq<char>) -> Seq<char> {
    "couldn't start Tokio runtime: "@ + cause
}

impl<R, Cfg> TokioComponent<R, Cfg> {
    /// The runtime, as long as nobody has taken it.
    pub closed spec fn held(&self) -> Option<R> {
        self.runtime
    }

    /// The component for the outcome of starting a runtime: it holds the
    /// runtime that was started; the failure to start one is an error that
    /// carries the cause.
    pub fn new(started: Result<R, String>) -> (r: Result<Self, FrameworkError>)
        ensures
            match started {
                Ok(runtime) => r matches Ok(c) && c.held() == Some(runtime),
                Err(cause) => r matches Err(e) && e@ == ErrorView::ComponentError(
                    start_failure_message(cause@),
                ),
            },
    {
        match started {
            Ok(runtime) => Ok(Self::from(runtime)),
            Err(cause) => {
                let message = "couldn't start Tokio runtime: ".to_owned().concat(cause.as_str());
                Err(FrameworkError::ComponentError(message))
            },
        }
    }

    /// The error for a runtime that is no longer there.
    fn taken() -> (e: FrameworkError)
        ensures
            e@ == ErrorView::ComponentError(taken_message()),
    {
        FrameworkError::ComponentError("Tokio runtime has already been taken!".to_owned())
    }

    /// Borrows the runtime, to spawn a future on it for instance.
    ///
    /// Fails if the runtime has been taken.
    pub fn runtime(&self) -> (r: Result<&R, FrameworkError>)
        ensures
            match self.held() {
                Some(runtime) => r matches Ok(held) && *held == runtime,
                None => r matches Err(e) && e@ == ErrorView::ComponentError(taken_message()),
            },
    {
        match &self.runtime {
            Some(runtime) => Ok(runtime),
            None => Err(Self::taken()),
        }
    }

    /// Borrows the runtime mutably. The runtime stays with the component.
    ///
    /// Fails if the runtime has been taken.
    pub fn runtime_mut(&mut self) -> (r: Result<&mut R, FrameworkError>)
        ensures
            match old(self).held() {
                Some(runtime) => r matches Ok(held) && *held == runtime && final(self).held()
                    == Some(*final(held)),
                None => r matches Err(e) && e@ == ErrorView::ComponentError(taken_message())
                    && final(self).held() is None,
            },
    {
        match &mut self.runtime {
            Some(runtime) => Ok(runtime),
            None => Err(Self::taken()),
        }
    }

    /// Takes the runtime out of the component, to start it. Afterwards the
    /// component holds none.
    ///
    /// Fails if the runtime has been taken before.
    pub fn take_runtime(&mut self) -> (r: Result<R, FrameworkError>)
        ensures
            final(self).held() is None,
            match old(self).held() {
                Some(runtime) => r == Ok::<R, FrameworkError>(runtime),
                None => r matches Err(e) && e@ == ErrorView::ComponentError(taken_message()),
            },
    {
        match self.runtime.take() {
            Some(runtime) => Ok(runtime),
            None => Err(Self::taken()),
        }
    }
}

impl<R, Cfg> From<R> for TokioComponent<R, Cfg> {
    /// The component that holds `runtime`.
    fn from(runtime: R) -> (r: Self)
        ensures
            r.held() == Some(runtime),
    {
        TokioComponent { runtime: Some(runtime), config: PhantomData }
    }
}

impl<R, Cfg> vstd::std_specs::convert::FromSpecImpl<R> for TokioComponent<R, Cfg> {
    open spec fn obeys_from_spec() -> bool {
        true
    }

    closed spec fn from_spec(runtime: R) -> Self {
        TokioComponent { runtime: Some(runtime), config: PhantomData }
    }
}

impl<R, Cfg> Component for TokioComponent<R, Cfg> {
    type Config = Cfg;

    /// Identity of this component.
    fn id(&self) -> (r: Name)
        ensures
            r@ == "abscissa::runtime::TokioComponent"@,
    {
        id()
    }

    /// Version of this component.
    fn version(&self) -> (r: Version)
        ensures
            r == (Version { major: 0, minor: 5, patch: 0 }),
    {
        Version::new(0, 5, 0)
    }

    /// The runtime needs nothing from the configuration: this succeeds and
    /// leaves the component as it is.
    fn after_config(&mut self, config: &Cfg) -> (r: Result<(), String>)
        ensures
            r is Ok,
            *final(self) == *old(self),
    {
        Ok(())
    }

    /// The runtime depends on no other component.
    fn dependencies(&self) -> (r: Vec<Name>)
        ensures
            r@.len() == 0,
    {
        Vec::new()
    }

    /// The runtime has nothing to release: this succeeds and leaves the
    /// component as it is.
    fn before_shutdown(&mut self) -> (r: Result<(), String>)
        ensures
            r is Ok,
            *final(self) == *old(self),
    {
        Ok(())
    }
}

} // verus!
