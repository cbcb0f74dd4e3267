//! The two-valued outcome of one environment tick.

use vstd::prelude::*;

verus! {

/// Outcome of one environment tick: `Alive` permits continuation next tick,
/// `Dead` triggers immediate removal from the population. It is derived by
/// simple negation of the environment's own "episode done" signal and
/// carries no other payload.
#[derive(Debug, PartialEq, Eq, Structural)]
pub enum Status {
    Dead,
    Alive,
}

impl From<bool> for Status {
    /// `true` means the organism is still alive, `false` that its episode
    /// is done; environments typically convert `!done` into a `Status`.
    fn from(status: bool) -> (s: Status)
        ensures
            s == (if status {
                Status::Alive
            } else {
                Status::Dead
            }),
    {
        if status {
            Status::Alive
        } else {
            Status::Dead
        }
    }
}

impl vstd::std_specs::convert::FromSpecImpl<bool> for Status {
    open spec fn obeys_from_spec() -> bool {
        true
    }

    open spec fn from_spec(status: bool) -> Status {
        if status {
            Status::Alive
        } else {
            Status::Dead
        }
    }
}

} // verus!
