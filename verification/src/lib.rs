//! Soft-body creature evolution.
//!
//! Creatures are grids of mass-spring cells driven by per-cell excitable
//! charge models; a generational pipeline simulates them under gravity,
//! scores them by mean horizontal displacement, selects survivors and
//! refills the population by mutation.  All physics runs on a fixed-point
//! scalar type, so every step has an exact mathematical description.

pub mod cell;
pub mod charge;
pub mod config;
pub mod creature;
pub mod dna;
pub mod evolution;
pub mod fitness;
pub mod fixed;
pub mod particle;
pub mod rng;
pub mod spring;
pub mod vec2;
pub mod world;
