//! The data model: inventory assets, findings, scans, systems, plans and the
//! vendor registry.

pub mod asset;
pub mod finding;
pub mod json;
pub mod plan;
pub mod scan;
pub mod score;
pub mod system;
pub mod vendor;
