//! Colon-prefixed inspection commands.

pub mod explain;
pub mod history;
pub mod installed;
pub mod layers;
pub mod mounts;
pub mod services;
pub mod depends;
pub mod reload;
