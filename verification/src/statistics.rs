//! Named time series recorded during a simulation run.

pub mod data_point;
pub mod stats;
pub mod timeseries;
