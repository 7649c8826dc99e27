//! Offline geocoder for the free text of where an animal was found.
//!
//! Common "found at..." texts are resolved to a coarse location by a gazetteer
//! of places and ZIP codes, without network access.

pub mod enrichment;
pub mod error;
pub mod gazetteer;
pub mod parser;

pub use crate::geocode::enrichment::{enrich_record, EnrichmentResult};
pub use crate::geocode::error::GeocodeError;
pub use crate::geocode::gazetteer::{Gazetteer, GazetteerEntry, LocationSource};
pub use crate::geocode::parser::{parse_found_location, ParsedLocation};
