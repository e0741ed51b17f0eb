//! Genetic learning: the capabilities an individual needs, and the evolution
//! of a population of such individuals.

pub mod evolution;
