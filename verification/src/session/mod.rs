//! Virtual seats: their environment, their processes, their health and the
//! farm that tracks several of them.
pub mod environment;
pub mod farm;
pub mod health;
pub mod process;
pub mod seat;
