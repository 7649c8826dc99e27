//! The connectors, one per family of sources.

pub mod arcgis;
pub mod opendatasoft;
pub mod petfbi;
pub mod rescuegroups;
pub mod socrata;
