//! The desktop engine: installed applications, their windows, observations
//! of their accessibility trees, and the checks every action passes.
pub mod actions;
pub mod apps;
pub mod clipboard;
pub mod engine;
pub mod geometry;
pub mod perform;
pub mod target;
