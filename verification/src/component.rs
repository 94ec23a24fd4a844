//! Components: the pluggable subsystems of an application.

pub mod name;

use vstd::prelude::*;
use crate::component::name::Name;

verus! {

/// A semantic version tag. It is informational: nothing in the framework
/// decides by it.
#[derive(Clone, Copy, Debug, PartialEq, Eq, Structural)]
pub struct Version {
    pub major: u64,
    pub minor: u64,
    pub patch: u64,
}

impl Version {
    /// The version `major.minor.patch`.
    pub fn new(major: u64, minor: u64, patch: u64) -> (r: Version)
        ensures
            r == (Version { major, minor, patch }),
    {
        Version { major, minor, patch }
    }
}

/// A subsystem that takes part in the application lifecycle.
///
/// The framework gives no meaning to what the hooks do: whatever they return
/// is handled, and nothing is assumed of them.
pub trait Component: Sized {
    /// The configuration that the component is initialised from.
    type Config;

    /// Identity of the component: unique within one registry.
    fn id(&self) -> Name;

    /// Version of the component.
    fn version(&self) -> Version;

    /// Identities of the components that must have been initialised before
    /// this one.
    fn dependencies(&self) -> Vec<Name> {
        Vec::new()
    }

    /// Called once configuration is available, after the same hook of every
    /// dependency. A failure is returned with a description of its cause.
    fn after_config(&mut self, config: &Self::Config) -> Result<(), String>;

    /// Called when the application shuts down, before the same hook of any
    /// dependency.
    fn before_shutdown(&mut self) -> Result<(), String> {
        Ok(())
    }
}

} // verus!
