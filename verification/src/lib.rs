//! Simulation core of a reaction-time arcade game: a fixed grid of cells
//! (moles) that cycle between concealment and exposure on randomized timers,
//! each bound to a distinct player trigger. Hitting an exposed cell scores a
//! point; striking a concealed cell, or letting an exposed cell retreat
//! unstruck, costs health. A round manager tracks the clock, score, health
//! and the round lifecycle, and a hardcoded difficulty curve makes cells
//! appear more often and disappear faster as the round progresses.
//!
//! All durations are integer milliseconds. Rendering, audio and input-device
//! binding are left to the caller: each tick it supplies the wall-clock delta
//! and the set of triggers newly pressed, and reads the resulting snapshot.

pub mod anim;
pub mod cell;
pub mod curve;
pub mod params;
pub mod round;
pub mod sample;
pub mod shake;
