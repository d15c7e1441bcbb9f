//! Turns Dockerfile text and Compose definitions into typed models.

pub mod compose;
pub mod dockerfile;
pub mod error;
