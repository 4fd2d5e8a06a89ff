//! Integer core of a deterministic ecosystem simulation: the world's random
//! stream, canonical brain hashing and the bounded avoidance search, brain
//! topologies, creature identifiers, the death partition of a population, and
//! per-tick telemetry masks and counters.

pub mod avoid;
pub mod hash;
pub mod model;
pub mod population;
pub mod rng;
pub mod text;
