//! The slot under the lock: empty until an application is installed, and
//! never emptied again.

use vstd::prelude::*;

verus! {

/// Installs `new_app` in the slot, in place of what was there.
pub fn install<A>(state: &mut Option<A>, new_app: A)
    ensures
        *final(state) == Some(new_app),
{
    *state = Some(new_app);
}

/// The application in the slot, if one is installed.
pub fn loaded<A>(state: &Option<A>) -> (r: Option<&A>)
    ensures
        match r {
            Some(app) => *state == Some(*app),
            None => *state is None,
        },
{
    state.as_ref()
}

/// The application in the slot, if one is installed, for changing it.
///
/// Whatever is done through the reference, a slot that holds an application
/// goes on holding one, and an empty slot stays empty.
pub fn loaded_mut<A>(state: &mut Option<A>) -> (r: Option<&mut A>)
    ensures
        match r {
            Some(app) => *old(state) == Some(*app) && *final(state) == Some(*final(app)),
            None => *old(state) is None && *final(state) is None,
        },
{
    state.as_mut()
}

} // verus!
