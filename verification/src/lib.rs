//! Core of an interactive circuit-loop simulation: particles ("electrons")
//! travel clockwise around a fixed rectangular path, are slowed by
//! user-placed resistors, and drive the brightness of an LED indicator.
//!
//! The library holds only the simulation logic: the collision-driven
//! direction state machine, the multiplicative damping model, power
//! aggregation, the on/off switch, spawn cadence, and resistor placement.
//! Rendering, input devices and broad-phase collision detection are
//! collaborators that feed plain values in and read plain values out.

pub mod circuit;
pub mod damping;
pub mod entropy;
pub mod heading;
pub mod particle;
pub mod switch;
