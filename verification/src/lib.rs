//! A discrete-event simulation kernel paired with a generic
//! evolutionary-optimisation engine.

mod chance;
pub mod des;
pub mod environment;
pub mod event;
pub mod experiment;
pub mod genetic_learning;
pub mod json;
pub mod simulation;
pub mod statistics;
pub mod text;
