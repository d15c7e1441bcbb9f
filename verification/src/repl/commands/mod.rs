//! Standard shell commands.

pub mod apt;
pub mod cat;
pub mod cd;
pub mod env_cmd;
pub mod help;
pub mod pip;
pub mod pwd;
pub mod which;
pub mod find;
pub mod ls;
