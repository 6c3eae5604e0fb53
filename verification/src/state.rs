//! The controller state guard: three states and the transitions between them.

use vstd::prelude::*;

verus! {

/// The state of the whole controller.
#[derive(Clone, Copy, Debug, PartialEq, Eq, Structural)]
pub enum ControllerState {
    /// Nothing is happening; protected drivers are locked.
    Standby,
    /// An ignition has been granted and is being prepared.
    PreIgnite,
    /// The engine is firing.
    Ignite,
}

/// The transition table: whether the guard lets `from` be followed by `to`.
///
/// Standby and PreIgnite lead to each other, PreIgnite leads to Ignite, and
/// Ignite leads back to Standby. Nothing else is legal; in particular no state
/// leads to itself, and Standby never leads straight to Ignite.
pub open spec fn legal_transition(from: ControllerState, to: ControllerState) -> bool {
    match (from, to) {
        (ControllerState::Standby, ControllerState::PreIgnite) => true,
        (ControllerState::PreIgnite, ControllerState::Standby) => true,
        (ControllerState::PreIgnite, ControllerState::Ignite) => true,
        (ControllerState::Ignite, ControllerState::Standby) => true,
        _ => false,
    }
}

/// A refused transition: the state the guard was in when it refused.
#[derive(Clone, Copy, Debug, PartialEq, Eq, Structural)]
pub struct IllegalTransition {
    /// The state observed when the request was refused; it is still in effect.
    pub current: ControllerState,
    /// The state that was asked for.
    pub requested: ControllerState,
}

/// Holds the current controller state and lets it change only along the
/// transition table.
#[derive(Debug)]
pub struct StateGuard {
    state: ControllerState,
}

impl StateGuard {
    /// The state the guard holds.
    pub closed spec fn current(&self) -> ControllerState {
        self.state
    }

    /// A guard that starts in `initial`.
    pub fn new(initial: ControllerState) -> (guard: StateGuard)
        ensures
            guard.current() == initial,
    {
        StateGuard { state: initial }
    }

    /// The current state.
    pub fn get(&self) -> (state: ControllerState)
        ensures
            state == self.current(),
    {
        self.state
    }

    /// Moves to `next` if the table allows it from the current state;
    /// otherwise refuses and leaves the state as it was.
    pub fn try_transition(&mut self, next: ControllerState) -> (outcome: Result<
        (),
        IllegalTransition,
    >)
        ensures
            legal_transition(old(self).current(), next) ==> outcome is Ok && final(self).current()
                == next,
            !legal_transition(old(self).current(), next) ==> outcome == Err::<
                (),
                IllegalTransition,
            >(IllegalTransition { current: old(self).current(), requested: next })
                && final(self).current() == old(self).current(),
    {
        let allowed = match (self.state, next) {
            (ControllerState::Standby, ControllerState::PreIgnite) => true,
            (ControllerState::PreIgnite, ControllerState::Standby) => true,
            (ControllerState::PreIgnite, ControllerState::Ignite) => true,
            (ControllerState::Ignite, ControllerState::Standby) => true,
            _ => false,
        };
        if allowed {
            self.state = next;
            Ok(())
        } else {
            Err(IllegalTransition { current: self.state, requested: next })
        }
    }

    /// Returns to Standby from whatever state is in effect: the emergency path,
    /// which no table entry can refuse.
    pub fn force_standby(&mut self)
        ensures
            final(self).current() == ControllerState::Standby,
    {
        self.state = ControllerState::Standby;
    }
}

} // verus!
