//! Build-artifact resolution, introspection-contract checks and
//! configuration-file reconciliation for native runtime extensions.

pub mod text;
pub mod target;
pub mod events;
pub mod version;
pub mod config;
pub mod commands;
