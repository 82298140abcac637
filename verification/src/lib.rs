//! Turn-resolution core for a turn-based combat engine.
//!
//! The library decides, tick by tick, which combatant acts next, dispatches
//! that combatant's chosen skill against a validated target shape, and
//! advances time-limited status effects. Scheduling is a deterministic
//! speed-driven countdown; dispatch validates the target shape against the
//! skill's declared capability before any state is touched.

pub mod character;
pub mod effects;
pub mod errors;
pub mod flow;
pub mod positioning;
pub mod skills;
