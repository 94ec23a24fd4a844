//! The boot lifecycle: the phases an application goes through from process
//! entry to exit, and what is to be done in each.
//!
//! The driver decides; its caller does the work that each action names and
//! reports back how it went. For the work that is done on the application
//! itself (installing it, registering its components, broadcasting the
//! configuration, shutting down) the driver has a step of its own, which
//! does the work and takes in the outcome.

use vstd::prelude::*;
use vstd::string::*;
use crate::application::lock::Lock;
use crate::application::Application;
use crate::component::Component;
use crate::error::{error_views, message_of, FrameworkError};
use crate::registry::{
    hook_outcome, init_calls, reported, shutdown_errors, vertices, Entry, Hook, Registry,
};

verus! {

/// The phases of the lifecycle, in the order in which they are passed.
#[derive(Clone, Copy, Debug, PartialEq, Eq, Structural)]
pub enum Phase {
    /// Nothing has happened yet.
    Uninitialized,
    /// The default application is installed in the cell.
    Constructed,
    /// The components are registered.
    ComponentsRegistered,
    /// The configuration is loaded and every component has seen it.
    ConfigLoaded,
    /// The command runs.
    Running,
    /// The components are being shut down.
    ShuttingDown,
    /// The process is to exit.
    Terminated,
}

/// What the caller reports back to the driver.
#[derive(Clone, Copy, Debug, PartialEq, Eq, Structural)]
pub enum Event {
    /// The work of the current phase is done.
    Completed,
    /// The work of the current phase failed.
    Failed,
    /// A termination signal arrived.
    Interrupted,
}

/// What the caller is to do next.
#[derive(Clone, Copy, Debug, PartialEq, Eq, Structural)]
pub enum Action {
    /// Build the default application and install it in the cell.
    Construct,
    /// Take the write guard, enumerate the components and register them.
    RegisterComponents,
    /// Obtain the configuration and broadcast it to the components.
    LoadConfig,
    /// Release the write guard and hand control to the command.
    RunCommand,
    /// Wait for the command to finish.
    AwaitCommand,
    /// Broadcast the shutdown to the components.
    Shutdown,
    /// Exit the process with the given status.
    Exit(u8),
}

/// The state of the driver: the phase, and whether anything has failed.
#[derive(Clone, Copy, Debug, PartialEq, Eq, Structural)]
pub struct Boot {
    pub phase: Phase,
    pub failed: bool,
}

/// The place of a phase in the lifecycle.
pub open spec fn rank(phase: Phase) -> int {
    match phase {
        Phase::Uninitialized => 0,
        Phase::Constructed => 1,
        Phase::ComponentsRegistered => 2,
        Phase::ConfigLoaded => 3,
        Phase::Running => 4,
        Phase::ShuttingDown => 5,
        Phase::Terminated => 6,
    }
}

/// The phase that follows `phase` when its work is done.
pub open spec fn successor(phase: Phase) -> Phase {
    match phase {
        Phase::Uninitialized => Phase::Constructed,
        Phase::Constructed => Phase::ComponentsRegistered,
        Phase::ComponentsRegistered => Phase::ConfigLoaded,
        Phase::ConfigLoaded => Phase::Running,
        Phase::Running => Phase::ShuttingDown,
        Phase::ShuttingDown => Phase::Terminated,
        Phase::Terminated => Phase::Terminated,
    }
}

/// The state after `event`.
///
/// Work that is done leads to the next phase. A failure is fatal: it leads
/// straight to `Terminated` and is remembered, except that once terminated
/// nothing changes any more. A termination signal ends the running command
/// and is ignored in every other phase.
pub open spec fn next(state: Boot, event: Event) -> Boot {
    match (state.phase, event) {
        (Phase::Terminated, _) => state,
        (_, Event::Failed) => Boot { phase: Phase::Terminated, failed: true },
        (_, Event::Completed) => Boot { phase: successor(state.phase), failed: state.failed },
        (Phase::Running, Event::Interrupted) => Boot {
            phase: Phase::ShuttingDown,
            failed: state.failed,
        },
        (_, Event::Interrupted) => state,
    }
}

/// The state at process entry.
pub open spec fn initial() -> Boot {
    Boot { phase: Phase::Uninitialized, failed: false }
}

/// What is to be done in `state`.
pub open spec fn pending(state: Boot) -> Action {
    match state.phase {
        Phase::Uninitialized => Action::Construct,
        Phase::Constructed => Action::RegisterComponents,
        Phase::ComponentsRegistered => Action::LoadConfig,
        Phase::ConfigLoaded => Action::RunCommand,
        Phase::Running => Action::AwaitCommand,
        Phase::ShuttingDown => Action::Shutdown,
        Phase::Terminated => Action::Exit(
            if state.failed {
                1u8
            } else {
                0u8
            },
        ),
    }
}

/// The state after a list of events, one after the other.
pub open spec fn run(state: Boot, events: Seq<Event>) -> Boot
    decreases events.len(),
{
    if events.len() == 0 {
        state
    } else {
        next(run(state, events.drop_last()), events.last())
    }
}

/// The event that reports how the work of a phase went.
pub open spec fn outcome(r: Result<(), FrameworkError>) -> Event {
    if r is Ok {
        Event::Completed
    } else {
        Event::Failed
    }
}

/// The event that reports how a shutdown went: it failed if any component
/// failed to shut down.
pub open spec fn shutdown_outcome(errors: Seq<FrameworkError>) -> Event {
    if errors.len() == 0 {
        Event::Completed
    } else {
        Event::Failed
    }
}

impl Event {
    /// The event that reports how the work of a phase went.
    pub fn from_result(r: &Result<(), FrameworkError>) -> (e: Event)
        ensures
            e == outcome(*r),
    {
        match r {
            Ok(_) => Event::Completed,
            Err(_) => Event::Failed,
        }
    }

    /// The event that reports how a shutdown went.
    pub fn from_shutdown(errors: &Vec<FrameworkError>) -> (e: Event)
        ensures
            e == shutdown_outcome(errors@),
    {
        if errors.len() == 0 {
            Event::Completed
        } else {
            Event::Failed
        }
    }
}

impl Boot {
    /// The driver at process entry.
    pub fn new() -> (r: Boot)
        ensures
            r == initial(),
    {
        Boot { phase: Phase::Uninitialized, failed: false }
    }

    /// The phase that the driver is in.
    pub fn phase(&self) -> (r: Phase)
        ensures
            r == self.phase,
    {
        self.phase
    }

    /// What the caller is to do now.
    pub fn action(&self) -> (r: Action)
        ensures
            r == pending(*self),
    {
        match self.phase {
            Phase::Uninitialized => Action::Construct,
            Phase::Constructed => Action::RegisterComponents,
            Phase::ComponentsRegistered => Action::LoadConfig,
            Phase::ConfigLoaded => Action::RunCommand,
            Phase::Running => Action::AwaitCommand,
            Phase::ShuttingDown => Action::Shutdown,
            Phase::Terminated => {
                if self.failed {
                    Action::Exit(1)
                } else {
                    Action::Exit(0)
                }
            },
        }
    }

    /// Takes in what the caller reports and says what is to be done next.
    pub fn advance(&mut self, event: Event) -> (r: Action)
        ensures
            *final(self) == next(*old(self), event),
            r == pending(*final(self)),
    {
        match self.phase {
            Phase::Terminated => {},
            _ => {
                match event {
                    Event::Failed => {
                        self.phase = Phase::Terminated;
                        self.failed = true;
                    },
                    Event::Completed => {
                        self.phase =
                        match self.phase {
                            Phase::Uninitialized => Phase::Constructed,
                            Phase::Constructed => Phase::ComponentsRegistered,
                            Phase::ComponentsRegistered => Phase::ConfigLoaded,
                            Phase::ConfigLoaded => Phase::Running,
                            Phase::Running => Phase::ShuttingDown,
                            Phase::ShuttingDown => Phase::Terminated,
                            Phase::Terminated => Phase::Terminated,
                        };
                    },
                    Event::Interrupted => {
                        match self.phase {
                            Phase::Running => {
                                self.phase = Phase::ShuttingDown;
                            },
                            _ => {},
                        }
                    },
                }
            },
        }
        self.action()
    }
}

impl Boot {
    /// Does the work of the phase `Uninitialized`: installs an application
    /// without configuration and without components in the cell, and moves
    /// on to `Constructed` if that succeeds, to `Terminated` if the lock of
    /// the cell is poisoned.
    ///
    /// A thread that already holds the lock of the cell must not call this:
    /// the call may panic or never return.
    pub fn construct<C: Component>(&mut self, cell: &Lock<Application<C>>) -> (r: Result<
        (),
        FrameworkError,
    >)
        requires
            old(self).phase == Phase::Uninitialized,
        ensures
            *final(self) == next(*old(self), outcome(r)),
            r matches Err(e) ==> e == FrameworkError::LockPoisoned,
    {
        let r = cell.set(Application::new());
        self.advance(Event::from_result(&r));
        r
    }

    /// Does the work of the phase `Constructed` on `app`: registers the
    /// components, and moves on to `ComponentsRegistered` if that succeeds,
    /// to `Terminated` if it fails. See `Application::register_components`.
    pub fn register_components<C: Component>(
        &mut self,
        app: &mut Application<C>,
        components: Vec<C>,
    ) -> (r: Result<(), FrameworkError>)
        requires
            old(self).phase == Phase::Constructed,
            old(app).wf(),
        ensures
            *final(self) == next(*old(self), outcome(r)),
            final(app).wf(),
            final(app).config_value() == old(app).config_value(),
            exists|entries: Seq<Entry<C>>|
                reported(components@, entries) && #[trigger] Registry::registered(
                    old(app).registry(),
                    entries,
                    final(app).registry(),
                    r,
                ),
    {
        let r = app.register_components(components);
        self.advance(Event::from_result(&r));
        r
    }

    /// Does the work of the phase `ComponentsRegistered` on `app`: broadcasts
    /// the configuration and makes it the configuration of the application,
    /// and moves on to `ConfigLoaded` if that succeeds, to `Terminated` if a
    /// component fails. See `Application::after_config`.
    pub fn load_config<C: Component>(&mut self, app: &mut Application<C>, config: C::Config) -> (r:
        Result<(), FrameworkError>)
        requires
            old(self).phase == Phase::ComponentsRegistered,
            old(app).wf(),
        ensures
            *final(self) == next(*old(self), outcome(r)),
            final(app).wf(),
            final(app).registry().graph() == old(app).registry().graph(),
            final(app).registry().broadcast_order() == old(app).registry().broadcast_order(),
            final(app).registry().components().len() == old(app).registry().components().len(),
            final(app).config_value() == if r is Ok {
                Some(config)
            } else {
                old(app).config_value()
            },
            ({
                let order = old(app).registry().broadcast_order();
                let before = old(app).registry().history();
                let after = final(app).registry().history();
                let m = after.len() - before.len();
                &&& 0 <= m <= order.len()
                &&& after == before + init_calls(order, m, r)
                &&& match r {
                    Ok(()) => m == order.len(),
                    Err(e) => {
                        &&& m >= 1
                        &&& e matches FrameworkError::ComponentInitError(id, _)
                        &&& id@ == old(app).registry().graph()[order[m - 1]].id
                    },
                }
                &&& forall|p: int|
                    0 <= p < m ==> 0 <= #[trigger] order[p] < old(app).registry().components().len() && exists|h: &mut C|
                        #![trigger call_ensures(C::after_config, (h, &config), hook_outcome(r, p, m))]
                        mut_ref_current(h) == old(app).registry().components()[order[p]] && mut_ref_future(h) == final(app).registry().components()[order[p]]
                            && call_ensures(C::after_config, (h, &config), hook_outcome(r, p, m))
                &&& forall|j: int|
                    m <= j < order.len() ==> final(app).registry().components()[#[trigger] order[j]]
                        == old(app).registry().components()[order[j]]
            }),
    {
        let r = app.after_config(config);
        self.advance(Event::from_result(&r));
        r
    }

    /// Does the work of the phase `ShuttingDown` on `app`: shuts every
    /// component down and moves on to `Terminated`; the lifecycle has failed
    /// if a component failed to shut down. See `Application::shutdown`.
    pub fn shutdown<C: Component>(&mut self, app: &mut Application<C>) -> (errors: Vec<
        FrameworkError,
    >)
        requires
            old(self).phase == Phase::ShuttingDown,
            old(app).wf(),
        ensures
            *final(self) == next(*old(self), shutdown_outcome(errors@)),
            final(self).phase == Phase::Terminated,
            final(app).wf(),
            final(app).config_value() == old(app).config_value(),
            final(app).registry().graph() == old(app).registry().graph(),
            final(app).registry().broadcast_order() == old(app).registry().broadcast_order(),
            final(app).registry().components().len() == old(app).registry().components().len(),
            ({
                let before = old(app).registry().history();
                let calls = final(app).registry().history().skip(before.len() as int);
                &&& final(app).registry().history() == before + calls
                &&& vertices(calls) == old(app).registry().shutdown_order()
                &&& forall|p: int|
                    0 <= p < calls.len() ==> (#[trigger] calls[p]).hook == Hook::BeforeShutdown
                        && exists|h: &mut C|
                        #![trigger call_ensures(C::before_shutdown, (h,), calls[p].outcome)]
                        mut_ref_current(h) == old(app).registry().components()[calls[p].vertex] && mut_ref_future(h)
                            == final(app).registry().components()[calls[p].vertex] && call_ensures(
                            C::before_shutdown,
                            (h,),
                            calls[p].outcome,
                        )
                &&& error_views(errors@) == shutdown_errors(old(app).registry().graph(), calls)
            }),
    {
        let errors = app.shutdown();
        self.advance(Event::from_shutdown(&errors));
        errors
    }
}

/// No event leads back: the phase after an event is the same or a later one,
/// a step forward goes to the next phase or, on failure, to the end, and
/// what has failed stays failed.
pub proof fn lemma_no_way_back(state: Boot, event: Event)
    ensures
        rank(next(state, event).phase) >= rank(state.phase),
        rank(next(state, event).phase) == rank(state.phase) || rank(next(state, event).phase)
            == rank(state.phase) + 1 || (event == Event::Failed && next(state, event).phase
            == Phase::Terminated),
        state.failed ==> next(state, event).failed,
{
}

/// Over any list of events the phase never goes back and a failure is never
/// forgotten.
pub proof fn lemma_run_no_way_back(state: Boot, events: Seq<Event>)
    ensures
        rank(run(state, events).phase) >= rank(state.phase),
        state.failed ==> run(state, events).failed,
    decreases events.len(),
{
    if events.len() > 0 {
        lemma_run_no_way_back(state, events.drop_last());
        lemma_no_way_back(run(state, events.drop_last()), events.last());
    }
}

/// Once terminated, the driver stays as it is.
pub proof fn lemma_terminated_is_final(state: Boot, events: Seq<Event>)
    requires
        state.phase == Phase::Terminated,
    ensures
        run(state, events) == state,
    decreases events.len(),
{
    if events.len() > 0 {
        lemma_terminated_is_final(state, events.drop_last());
    }
}

/// A failure before the end of the lifecycle ends it with a non-zero exit
/// status, whatever is reported afterwards.
pub proof fn lemma_failure_is_fatal(state: Boot, later: Seq<Event>)
    requires
        state.phase != Phase::Terminated,
    ensures
        pending(run(next(state, Event::Failed), later)) == Action::Exit(1),
{
    lemma_terminated_is_final(next(state, Event::Failed), later);
}

/// Running two lists of events one after the other is running their
/// concatenation.
pub proof fn lemma_run_concat(state: Boot, first: Seq<Event>, second: Seq<Event>)
    ensures
        run(state, first + second) == run(run(state, first), second),
    decreases second.len(),
{
    if second.len() == 0 {
        assert(first + second =~= first);
    } else {
        lemma_run_concat(state, first, second.drop_last());
        assert((first + second).drop_last() =~= first + second.drop_last());
        assert((first + second).last() == second.last());
    }
}

/// If a failure is reported at any point before the lifecycle has ended,
/// the exit status is non-zero, whatever else is reported before or after.
pub proof fn lemma_any_failure_is_fatal(state: Boot, events: Seq<Event>, i: int)
    requires
        0 <= i < events.len(),
        events[i] == Event::Failed,
        run(state, events.take(i)).phase != Phase::Terminated,
    ensures
        pending(run(state, events)) == Action::Exit(1),
{
    let before = events.take(i);
    let upto = events.take(i + 1);
    let later = events.skip(i + 1);
    assert(upto.drop_last() =~= before);
    assert(upto.last() == Event::Failed);
    assert(events =~= upto + later);
    lemma_run_concat(state, upto, later);
    lemma_terminated_is_final(run(state, upto), later);
}

/// A lifecycle in which every phase completes ends with exit status zero.
pub proof fn lemma_clean_run_exits_zero()
    ensures
        pending(run(initial(), Seq::new(6, |i: int| Event::Completed))) == Action::Exit(0),
{
    let start = initial();
    let all = Seq::new(6, |i: int| Event::Completed);
    assert(all.take(0) =~= Seq::<Event>::empty());
    assert(run(start, all.take(0)) == start);
    assert(all.take(1).drop_last() =~= all.take(0));
    assert(run(start, all.take(1)).phase == Phase::Constructed);
    assert(all.take(2).drop_last() =~= all.take(1));
    assert(run(start, all.take(2)).phase == Phase::ComponentsRegistered);
    assert(all.take(3).drop_last() =~= all.take(2));
    assert(run(start, all.take(3)).phase == Phase::ConfigLoaded);
    assert(all.take(4).drop_last() =~= all.take(3));
    assert(run(start, all.take(4)).phase == Phase::Running);
    assert(all.take(5).drop_last() =~= all.take(4));
    assert(run(start, all.take(5)).phase == Phase::ShuttingDown);
    assert(all.take(6) =~= all);
    assert(all.drop_last() =~= all.take(5));
}

/// The exit status is zero only if the lifecycle has ended and nothing has
/// failed.
pub proof fn lemma_exit_zero_means_no_failure(state: Boot)
    requires
        pending(state) == Action::Exit(0),
    ensures
        !state.failed,
        state.phase == Phase::Terminated,
{
}

/// What a phase is called in a diagnostic: the work that is done in it.
pub open spec fn phase_name(phase: Phase) -> Seq<char> {
    match phase {
        Phase::Uninitialized => "constructing the application"@,
        Phase::Constructed => "registering components"@,
        Phase::ComponentsRegistered => "loading configuration"@,
        Phase::ConfigLoaded => "starting the command"@,
        Phase::Running => "running the command"@,
        Phase::ShuttingDown => "shutting down"@,
        Phase::Terminated => "terminated"@,
    }
}

/// The diagnostic line for an error that occurred in `phase`: the phase,
/// then the message of the error, which names the component if one failed.
pub fn diagnostic(phase: Phase, error: &FrameworkError) -> (r: String)
    ensures
        r@ == "fatal error while "@ + phase_name(phase) + ": "@ + message_of(error@),
{
    let name = match phase {
        Phase::Uninitialized => "constructing the application",
        Phase::Constructed => "registering components",
        Phase::ComponentsRegistered => "loading configuration",
        Phase::ConfigLoaded => "starting the command",
        Phase::Running => "running the command",
        Phase::ShuttingDown => "shutting down",
        Phase::Terminated => "terminated",
    };
    let message = error.message();
    "fatal error while ".to_owned().concat(name).concat(": ").concat(message.as_str())
}

} // verus!
