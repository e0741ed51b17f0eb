//! The environment capability and the environments that come with the
//! library.

pub mod bus_world;
pub mod env;
