//! The ecosystems that the engine can read a project of.

pub mod common;
pub mod python;
pub mod requirement;
