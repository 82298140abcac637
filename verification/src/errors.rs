//! Error taxonomy of the turn-resolution core.
//!
//! `StructuralError` marks misuse of the match lifecycle; the operation is
//! aborted and no state changes. `DispatchError` marks a rejected cast; the
//! caller may retry with a corrected target specification.

use vstd::prelude::*;

verus! {

/// Lifecycle misuse: the operation was issued in a state that forbids it.
#[derive(Clone, Copy, Debug, PartialEq, Eq, Structural)]
pub enum StructuralError {
    /// The roster holds no combatant although one is needed.
    EmptyRoster,
    /// The match has started, so roster membership is frozen.
    AlreadyStarted,
    /// The match has not started, so no turn can be resolved.
    NotStarted,
}

/// A rejected cast: the roster and turn counter are left unchanged.
#[derive(Clone, Copy, Debug, PartialEq, Eq, Structural)]
pub enum DispatchError {
    /// The target specification's shape differs from the skill's capability.
    TargetShapeMismatch,
    /// The caster is absent from the roster or not alive.
    InvalidCaster,
    /// A named target is absent from the roster or not alive.
    InvalidTarget,
    /// A location-shaped target lies outside the grid's bounds.
    OutOfBounds,
}

/// Either kind of failure, as reported by a whole-turn resolution.
#[derive(Clone, Copy, Debug, PartialEq, Eq, Structural)]
pub enum TurnError {
    Lifecycle(StructuralError),
    Dispatch(DispatchError),
}

} // verus!
