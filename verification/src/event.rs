//! The event capability that the scheduler and the environments program
//! against.

pub mod bus_event;
pub mod ordering;
pub mod schedulable;
