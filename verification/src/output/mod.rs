//! Terminal output helpers.

pub mod sanitize;
