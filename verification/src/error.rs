//! The errors of the framework.

use vstd::prelude::*;
use vstd::string::*;
use crate::component::name::{names, Name};

verus! {

/// What can go wrong while an application is brought up or torn down.
#[derive(Clone, Debug, PartialEq, Eq)]
pub enum FrameworkError {
    /// Two components carry the same identity.
    DuplicateComponent(Name),
    /// The dependencies of the named components form a cycle, or lead into
    /// one.
    CyclicDependency(Vec<Name>),
    /// A component failed to initialise from the configuration.
    ComponentInitError(Name, String),
    /// A component failed to shut down.
    ComponentShutdownError(Name, String),
    /// A component cannot do what was asked of it.
    ComponentError(String),
    /// The lock around the application state was poisoned: a writer panicked
    /// while it held the lock, and the state cannot be trusted. No caller
    /// retries after this.
    LockPoisoned,
}

/// A framework error as a mathematical value: names and causes as sequences
/// of characters.
pub enum ErrorView {
    DuplicateComponent(Seq<char>),
    CyclicDependency(Seq<Seq<char>>),
    ComponentInitError(Seq<char>, Seq<char>),
    ComponentShutdownError(Seq<char>, Seq<char>),
    ComponentError(Seq<char>),
    LockPoisoned,
}

impl View for FrameworkError {
    type V = ErrorView;

    open spec fn view(&self) -> ErrorView {
        match self {
            FrameworkError::DuplicateComponent(id) => ErrorView::DuplicateComponent(id@),
            FrameworkError::CyclicDependency(ids) => ErrorView::CyclicDependency(names(ids@)),
            FrameworkError::ComponentInitError(id, cause) => ErrorView::ComponentInitError(
                id@,
                cause@,
            ),
            FrameworkError::ComponentShutdownError(id, cause) => ErrorView::ComponentShutdownError(
                id@,
                cause@,
            ),
            FrameworkError::ComponentError(cause) => ErrorView::ComponentError(cause@),
            FrameworkError::LockPoisoned => ErrorView::LockPoisoned,
        }
    }
}

/// The views of a list of errors.
pub open spec fn error_views(list: Seq<FrameworkError>) -> Seq<ErrorView> {
    list.map_values(|e: FrameworkError| e@)
}

/// The items one after the other, with the separator between each two.
pub open spec fn join(items: Seq<Seq<char>>, separator: Seq<char>) -> Seq<char>
    decreases items.len(),
{
    if items.len() == 0 {
        Seq::empty()
    } else if items.len() == 1 {
        items[0]
    } else {
        join(items.drop_last(), separator) + separator + items.last()
    }
}

/// The line that describes an error to the user.
pub open spec fn message_of(e: ErrorView) -> Seq<char> {
    match e {
        ErrorView::DuplicateComponent(id) => "duplicate component: "@ + id,
        ErrorView::CyclicDependency(ids) => "cyclic dependency among components: "@ + join(
            ids,
            ", "@,
        ),
        ErrorView::ComponentInitError(id, cause) => "component "@ + id
            + " failed to initialize: "@ + cause,
        ErrorView::ComponentShutdownError(id, cause) => "component "@ + id
            + " failed to shut down: "@ + cause,
        ErrorView::ComponentError(cause) => "component error: "@ + cause,
        ErrorView::LockPoisoned => "application state corrupted by unhandled crash"@,
    }
}

/// The names one after the other, with `", "` between each two.
fn join_names(list: &Vec<Name>) -> (r: String)
    ensures
        r@ == join(names(list@), ", "@),
{
    let ghost all = names(list@);
    let mut out = String::new();
    let mut k: usize = 0;
    while k < list.len()
        invariant
            k <= list.len(),
            all == names(list@),
            out@ == join(all.take(k as int), ", "@),
        decreases list.len() - k,
    {
        if k > 0 {
            out.append(", ");
        }
        out.append(list[k].as_ref());
        assert(all.take(k + 1).drop_last() =~= all.take(k as int));
        k += 1;
    }
    assert(all.take(list.len() as int) =~= all);
    out
}

impl FrameworkError {
    /// The line that describes the error to the user.
    pub fn message(&self) -> (r: String)
        ensures
            r@ == message_of(self@),
    {
        match self {
            FrameworkError::DuplicateComponent(id) => "duplicate component: ".to_owned().concat(
                id.as_ref(),
            ),
            FrameworkError::CyclicDependency(ids) => {
                let listed = join_names(ids);
                "cyclic dependency among components: ".to_owned().concat(listed.as_str())
            },
            FrameworkError::ComponentInitError(id, cause) => "component ".to_owned().concat(
                id.as_ref(),
            ).concat(" failed to initialize: ").concat(cause.as_str()),
            FrameworkError::ComponentShutdownError(id, cause) => "component ".to_owned().concat(
                id.as_ref(),
            ).concat(" failed to shut down: ").concat(cause.as_str()),
            FrameworkError::ComponentError(cause) => "component error: ".to_owned().concat(
                cause.as_str(),
            ),
            FrameworkError::LockPoisoned => "application state corrupted by unhandled crash".to_owned(),
        }
    }

    /// The error as a string: its message.
    pub fn to_string(&self) -> (r: String)
        ensures
            r@ == message_of(self@),
    {
        self.message()
    }
}

} // verus!
