//! Deterministic, replayable football-match simulations.
//!
//! A seeded pseudo-random generator drives a minute-by-minute match engine;
//! matches compose into a round-robin league or a single-elimination knockout;
//! a playback cursor reveals the precomputed frames incrementally; finished
//! simulations project to CSV rows with injection-safe escaping.

pub mod catalog;
pub mod export;
pub mod instance;
pub mod knockout;
pub mod league;
pub mod lines;
pub mod rng;
pub mod runner;
pub mod service;
pub mod session;
pub mod sim;
pub mod text;
