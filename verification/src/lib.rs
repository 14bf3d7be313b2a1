//! License resolution for a project's dependencies and the pairwise
//! compatibility check of the licenses found.

pub mod classifier;
pub mod error;
pub mod languages;
pub mod license;
pub mod scan;
pub mod spdx;
pub mod text;
