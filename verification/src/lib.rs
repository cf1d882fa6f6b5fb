//! A countdown stopwatch engine over an injectable clock.
//!
//! The heart of the crate is [`stopwatch::Stopwatch`], a piece of pure state
//! that tracks elapsed and remaining time against a target duration. It is
//! generic over a [`clock::Clock`], so the same engine runs against the wall
//! clock ([`clock::UtcClock`]) and against a deterministic, manually advanced
//! source ([`clock::ManualClock`]). A small [`checklist`] module holds the
//! reorderable to-do list that accompanies the timer, and [`display`] renders
//! durations as `MM:SS` strings.

pub mod checklist;
pub mod clock;
pub mod display;
pub mod stopwatch;
