//! The driver that runs a scheduler and an environment to completion.

pub mod sim;
