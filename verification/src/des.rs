//! Discrete-event scheduling.

pub mod scheduler;
