//! Evolutionary-algorithm scaffolding: environments that hold interacting
//! populations, and fitness-ranked individuals.

pub mod adversarial;
pub mod fitness_based;
