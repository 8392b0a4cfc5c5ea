//! Password generation from per-category counts, a heuristic strength
//! rating, and the state machine of an interactive generator session.

pub mod strength;
pub mod generator;
pub mod controller;
