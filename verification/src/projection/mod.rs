//! Projection engine: declarative specs, the catalog with its dependency
//! DAG, lineage manifests and the build runner.

pub mod catalog;
pub mod lineage;
pub mod runner;
pub mod spec;
