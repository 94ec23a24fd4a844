//! The application: its configuration and its components.

pub mod lock;
pub mod state;

use vstd::prelude::*;
use crate::component::Component;
use crate::error::{error_views, FrameworkError};
use crate::registry::{hook_outcome, init_calls, shutdown_errors, vertices, Entry, Hook, Registry};

verus! {

/// The state of an application: the configuration, once it is loaded, and
/// the registry of components.
pub struct Application<C: Component> {
    config: Option<C::Config>,
    components: Registry<C>,
}

impl<C: Component> Application<C> {
    /// The configuration, once it is loaded.
    pub closed spec fn config_value(&self) -> Option<C::Config> {
        self.config
    }

    /// The registry of components.
    pub closed spec fn registry(&self) -> Registry<C> {
        self.components
    }

    /// The application is well formed: its registry is.
    pub open spec fn wf(&self) -> bool {
        self.registry().wf()
    }

    /// An application without configuration and without components.
    pub fn new() -> (r: Self)
        ensures
            r.wf(),
            r.config_value() is None,
            r.registry().components().len() == 0,
            r.registry().graph().len() == 0,
            r.registry().history().len() == 0,
    {
        Application { config: None, components: Registry::new() }
    }

    /// The configuration, once it is loaded.
    pub fn config(&self) -> (r: Option<&C::Config>)
        ensures
            match r {
                Some(c) => self.config_value() == Some(*c),
                None => self.config_value() is None,
            },
    {
        self.config.as_ref()
    }

    /// The registry of components.
    pub fn components(&self) -> (r: &Registry<C>)
        ensures
            *r == self.registry(),
    {
        &self.components
    }

    /// The registry of components, for changing it. The configuration stays
    /// as it is.
    pub fn components_mut(&mut self) -> (r: &mut Registry<C>)
        ensures
            *r == old(self).registry(),
            final(self).registry() == *final(r),
            final(self).config_value() == old(self).config_value(),
    {
        &mut self.components
    }

    /// Registers the components of the application. See
    /// `Registry::register`.
    pub fn register_components(&mut self, components: Vec<C>) -> (r: Result<(), FrameworkError>)
        requires
            old(self).wf(),
        ensures
            final(self).wf(),
            final(self).config_value() == old(self).config_value(),
            exists|entries: Seq<Entry<C>>|
                crate::registry::reported(components@, entries) && #[trigger] Registry::registered(
                    old(self).registry(),
                    entries,
                    final(self).registry(),
                    r,
                ),
    {
        self.components.register(components)
    }

    /// Makes `config` the configuration of the application, after every
    /// component has initialised itself from it.
    ///
    /// If a component fails, the round ends there, the error is returned and
    /// the configuration stays as it was. See
    /// `Registry::broadcast_after_config`.
    pub fn after_config(&mut self, config: C::Config) -> (r: Result<(), FrameworkError>)
        requires
            old(self).wf(),
        ensures
            final(self).wf(),
            final(self).registry().graph() == old(self).registry().graph(),
            final(self).registry().broadcast_order() == old(self).registry().broadcast_order(),
            final(self).registry().components().len() == old(self).registry().components().len(),
            final(self).config_value() == if r is Ok {
                Some(config)
            } else {
                old(self).config_value()
            },
            ({
                let order = old(self).registry().broadcast_order();
                let before = old(self).registry().history();
                let after = final(self).registry().history();
                let m = after.len() - before.len();
                &&& 0 <= m <= order.len()
                &&& after == before + init_calls(order, m, r)
                &&& match r {
                    Ok(()) => m == order.len(),
                    Err(e) => {
                        &&& m >= 1
                        &&& e matches FrameworkError::ComponentInitError(id, _)
                        &&& id@ == old(self).registry().graph()[order[m - 1]].id
                    },
                }
                &&& forall|p: int|
                    0 <= p < m ==> 0 <= #[trigger] order[p] < old(self).registry().components().len() && exists|h: &mut C|
                        #![trigger call_ensures(C::after_config, (h, &config), hook_outcome(r, p, m))]
                        mut_ref_current(h) == old(self).registry().components()[order[p]] && mut_ref_future(h) == final(self).registry().components()[order[p]]
                            && call_ensures(C::after_config, (h, &config), hook_outcome(r, p, m))
                &&& forall|j: int|
                    m <= j < order.len() ==> final(self).registry().components()[#[trigger] order[j]]
                        == old(self).registry().components()[order[j]]
            }),
    {
        match self.components.broadcast_after_config(&config) {
            Ok(()) => {
                self.config = Some(config);
                Ok(())
            },
            Err(e) => Err(e),
        }
    }

    /// Shuts the components down, in the reverse of the order in which they
    /// were initialised, and returns the failures. See
    /// `Registry::broadcast_shutdown`.
    pub fn shutdown(&mut self) -> (errors: Vec<FrameworkError>)
        requires
            old(self).wf(),
        ensures
            final(self).wf(),
            final(self).config_value() == old(self).config_value(),
            final(self).registry().graph() == old(self).registry().graph(),
            final(self).registry().broadcast_order() == old(self).registry().broadcast_order(),
            final(self).registry().components().len() == old(self).registry().components().len(),
            ({
                let before = old(self).registry().history();
                let calls = final(self).registry().history().skip(before.len() as int);
                &&& final(self).registry().history() == before + calls
                &&& vertices(calls) == old(self).registry().shutdown_order()
                &&& forall|p: int|
                    0 <= p < calls.len() ==> (#[trigger] calls[p]).hook == Hook::BeforeShutdown
                        && exists|h: &mut C|
                        #![trigger call_ensures(C::before_shutdown, (h,), calls[p].outcome)]
                        mut_ref_current(h) == old(self).registry().components()[calls[p].vertex] && mut_ref_future(h)
                            == final(self).registry().components()[calls[p].vertex] && call_ensures(
                            C::before_shutdown,
                            (h,),
                            calls[p].outcome,
                        )
                &&& error_views(errors@) == shutdown_errors(old(self).registry().graph(), calls)
            }),
    {
        self.components.broadcast_shutdown()
    }
}

} // verus!
