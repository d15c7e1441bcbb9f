//! The simulation engine: applies instructions to a `PreviewState`.

pub mod copy;
pub mod error;
pub mod run_sim;
pub mod runner;
pub mod properties;
pub mod mount;
pub mod compose;
