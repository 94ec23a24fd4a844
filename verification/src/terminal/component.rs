//! Terminal component.

use vstd::prelude::*;
use core::marker::PhantomData;
use termcolor::ColorChoice;
use crate::component::name::Name;
use crate::component::{Component, Version};

verus! {

/// `termcolor::ColorChoice`, carried as an opaque value.
#[verifier::external_type_specification]
#[verifier::external_body]
pub struct ExColorChoice(ColorChoice);

/// Identity of the terminal component.
pub fn id() -> (r: Name)
    ensures
        r@ == "abscissa::terminal::TerminalComponent"@,
{
    Name("abscissa::terminal::TerminalComponent")
}

/// The terminal subsystem as a component: it carries the colour choice that
/// the streams of the terminal are opened with.
pub struct TerminalComponent<Cfg> {
    color_choice: ColorChoice,
    config: PhantomData<Cfg>,
}

impl<Cfg> TerminalComponent<Cfg> {
    /// The colour choice of the component.
    pub closed spec fn choice(&self) -> ColorChoice {
        self.color_choice
    }

    /// A terminal component with the given colour choice.
    pub fn new(color_choice: ColorChoice) -> (r: TerminalComponent<Cfg>)
        ensures
            r.choice() == color_choice,
    {
        TerminalComponent { color_choice, config: PhantomData }
    }

    /// The colour choice of the component.
    pub fn color_choice(&self) -> (r: ColorChoice)
        ensures
            r == self.choice(),
    {
        self.color_choice
    }
}

impl<Cfg> Component for TerminalComponent<Cfg> {
    type Config = Cfg;

    /// Identity of this component.
    fn id(&self) -> (r: Name)
        ensures
            r@ == "abscissa::terminal::TerminalComponent"@,
    {
        id()
    }

    /// Version of this component.
    fn version(&self) -> (r: Version)
        ensures
            r == (Version { major: 0, minor: 0, patch: 0 }),
    {
        Version::new(0, 0, 0)
    }

    /// The terminal needs nothing from the configuration: this succeeds and
    /// leaves the component as it is.
    fn after_config(&mut self, config: &Cfg) -> (r: Result<(), String>)
        ensures
            r is Ok,
            *final(self) == *old(self),
    {
        Ok(())
    }

    /// The terminal depends on no other component.
    fn dependencies(&self) -> (r: Vec<Name>)
        ensures
            r@.len() == 0,
    {
        Vec::new()
    }

    /// The terminal has nothing to release: this succeeds and leaves the
    /// component as it is.
    fn before_shutdown(&mut self) -> (r: Result<(), String>)
        ensures
            r is Ok,
            *final(self) == *old(self),
    {
        Ok(())
    }
}

} // verus!
