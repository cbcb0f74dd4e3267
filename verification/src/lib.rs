//! A minimal evolutionary-computation runtime: a population of organisms is
//! repeatedly evaluated against a task environment, culled by survival
//! outcome, and replenished by mutated offspring of survivors.
//!
//! The genome representation, network fabrication and network evaluation are
//! external capabilities (the `set_genome` and `favannat` crates) consumed
//! through the narrow trusted layer in [`capabilities`]. Everything this
//! crate adds on top of them - organism identity, population membership,
//! seeding, survival filtering and reproduction policy - is verified.

pub mod capabilities;
pub mod habitat;
pub mod organism;
pub mod population;
pub mod status;

pub use capabilities::parameters_default;
pub use capabilities::FabricationError;
pub use habitat::Habitat;
pub use organism::Environment;
pub use organism::Organism;
pub use status::Status;
