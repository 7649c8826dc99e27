//! Homeward: shelter and lost-pet listings from many sources, brought into one
//! kind of record.
//!
//! - [`connectors`]: the sources. Each has a configuration, a normalizer into
//!   [`schema::PetRecord`], and a poll that says which page to ask for next and
//!   takes in what came back.
//! - [`http`]: polite requests: retries, spacing between requests to a host, and
//!   `robots.txt`.
//! - [`catalog`], [`registry`]: which sources there are.
//! - [`probe`], [`discover`], [`search`]: is a dataset usable, and which datasets
//!   might be.
//! - [`entry_text`]: what the text of a catalog entry says.
//! - [`coverage`], [`geo_coverage`]: what the sources cover, and what they do not.
//! - [`geocode`]: a coarse location from the text of where an animal was found.
//! - [`embed`]: the requests to the photo-embedding sidecar.
//! - [`cli`]: what an invocation of the program asks for.
//!
//! Requests, files and the database are the caller's; this library decides what
//! is asked for and what the answers mean.

pub mod catalog;
pub mod cli;
pub mod connectors;
pub mod coverage;
pub mod decimal;
pub mod discover;
pub mod embed;
pub mod entry_text;
pub mod error;
pub mod geo_coverage;
pub mod geocode;
pub mod http;
pub mod ids;
pub mod json;
pub mod outcome;
pub mod poll;
pub mod probe;
pub mod query;
pub mod rank;
pub mod registry;
pub mod schema;
pub mod search;
pub mod span;
pub mod stray;
pub mod table;
pub mod text;
pub mod time;
pub mod web;

pub use crate::catalog::{ArcGisConfig, OpenDataSoftConfig, SourceCatalog, SourceFamily};
pub use crate::connectors::arcgis::ArcGisConnector;
pub use crate::connectors::opendatasoft::OpenDataSoftConnector;
pub use crate::connectors::petfbi::{PetFbiConfig, PetFbiConnector};
pub use crate::connectors::rescuegroups::RescueGroupsConnector;
pub use crate::connectors::socrata::{SocrataColumnMap, SocrataConfig, SocrataConnector};
pub use crate::discover::{CoverageHole, HoleCandidateRow};
pub use crate::error::ConnectorError;
pub use crate::registry::ConnectorRegistry;
pub use crate::schema::Cursor;
