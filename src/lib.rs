//! Aggregation of combat events into per-encounter, per-player statistics.
//!
//! A [`meter::Meter`] keeps the history of encounters ([`session::Session`]),
//! detects encounter boundaries from the leave event of the main player, and
//! routes events to the players ([`player::Player`]) of the current encounter.
//!
//! Damage is counted as a whole-number magnitude; times are clock readings in
//! milliseconds, so durations are whole milliseconds.
mod clock;
pub mod player;
pub mod session;
pub mod meter;
pub mod laws;
