//! The domain model: virtual filesystem, provenance, instructions,
//! warnings, simulation state and Compose definitions.

pub mod compose;
pub mod fs;
pub mod instruction;
pub mod provenance;
pub mod sorted;
pub mod state;
pub mod warning;
