//! A preview shell model for Dockerfiles and Compose files: a verified
//! parser, simulation engine and inspection commands over a virtual
//! filesystem.

pub mod cli;
pub mod engine;
pub mod explain;
pub mod model;
pub mod output;
pub mod parser;
pub mod path;
pub mod repl;
pub mod text;

pub use cli::Cli;
