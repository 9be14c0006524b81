//! Stasis, the update firewall: the engine's verified core.

pub mod action;
pub mod cli;
pub mod engine;
pub mod files;
pub mod inventory;
pub mod journal;
pub mod json;
pub mod recipe;
pub mod session;
pub mod system;
pub mod text;
pub mod util;
