//! Multi-family source catalog: the entries of a `sources.toml` file.

use vstd::prelude::*;

use crate::connectors::socrata::{ColumnMapView, SocrataColumnMap, SocrataConfig};
use crate::error::{ConnectorError, ConnectorErrorView};

verus! {

/// Configuration for one OpenDataSoft dataset.
#[derive(Debug, Clone, PartialEq, Eq)]
pub struct OpenDataSoftConfig {
    /// Human-readable name for this source.
    pub name: String,
    /// Root URL of the ODS portal (e.g. `https://data.example.org`).
    pub base_url: String,
    /// ODS dataset identifier (e.g. `animal-shelter-intakes`).
    pub dataset_id: String,
    /// Column mapping, with the same field names as Socrata.
    pub column_map: SocrataColumnMap,
}

/// The model of an [`OpenDataSoftConfig`].
pub struct OdsConfigView {
    /// Name of this source.
    pub name: Seq<char>,
    /// Root URL of the portal.
    pub base_url: Seq<char>,
    /// Dataset identifier.
    pub dataset_id: Seq<char>,
    /// Column mapping.
    pub column_map: ColumnMapView,
}

impl DeepView for OpenDataSoftConfig {
    type V = OdsConfigView;

    open spec fn deep_view(&self) -> OdsConfigView {
        OdsConfigView {
            name: self.name@,
            base_url: self.base_url@,
            dataset_id: self.dataset_id@,
            column_map: self.column_map.deep_view(),
        }
    }
}

/// Configuration for one ArcGIS Feature Service layer.
#[derive(Debug, Clone, PartialEq, Eq)]
pub struct ArcGisConfig {
    /// Human-readable name for this source.
    pub name: String,
    /// Full URL of the Feature Service layer
    /// (e.g. `https://services.arcgis.com/.../FeatureServer/0`).
    pub service_url: String,
    /// Column mapping, with the same field names as Socrata.
    pub column_map: SocrataColumnMap,
}

/// The model of an [`ArcGisConfig`].
pub struct ArcGisConfigView {
    /// Name of this source.
    pub name: Seq<char>,
    /// Full URL of the layer.
    pub service_url: Seq<char>,
    /// Column mapping.
    pub column_map: ColumnMapView,
}

impl DeepView for ArcGisConfig {
    type V = ArcGisConfigView;

    open spec fn deep_view(&self) -> ArcGisConfigView {
        ArcGisConfigView {
            name: self.name@,
            service_url: self.service_url@,
            column_map: self.column_map.deep_view(),
        }
    }
}

/// Identifies which connector family a source entry belongs to.
#[derive(Debug, Clone, Copy, PartialEq, Eq, Structural, Hash)]
pub enum SourceFamily {
    /// Socrata / SODA open-data portal.
    Socrata,
    /// OpenDataSoft portal.
    OpenDataSoft,
    /// Esri ArcGIS Hub Feature Service.
    ArcGis,
}

impl SourceFamily {
    /// The family's name.
    pub open spec fn name(self) -> Seq<char> {
        match self {
            SourceFamily::Socrata => "Socrata"@,
            SourceFamily::OpenDataSoft => "OpenDataSoft"@,
            SourceFamily::ArcGis => "ArcGis"@,
        }
    }

    /// The family's name.
    pub fn label(&self) -> (res: String)
        ensures
            res@ == self.name(),
    {
        match self {
            SourceFamily::Socrata => "Socrata".to_owned(),
            SourceFamily::OpenDataSoft => "OpenDataSoft".to_owned(),
            SourceFamily::ArcGis => "ArcGis".to_owned(),
        }
    }
}

/// The entries of a `sources.toml` file, by family.
#[derive(Debug, Clone, PartialEq, Eq)]
pub struct SourceCatalog {
    /// Socrata / SODA entries (`[[socrata]]`).
    pub socrata: Vec<SocrataConfig>,
    /// OpenDataSoft entries (`[[opendatasoft]]`).
    pub opendatasoft: Vec<OpenDataSoftConfig>,
    /// ArcGIS Feature Service entries (`[[arcgis]]`).
    pub arcgis: Vec<ArcGisConfig>,
}

impl Default for SourceCatalog {
    /// A catalog without entries.
    fn default() -> (res: Self)
        ensures
            res.socrata@.len() == 0,
            res.opendatasoft@.len() == 0,
            res.arcgis@.len() == 0,
    {
        SourceCatalog { socrata: Vec::new(), opendatasoft: Vec::new(), arcgis: Vec::new() }
    }
}

/// The error for a catalog that could not be read from its file.
pub fn read_error(path: &str, complaint: &str) -> (res: ConnectorError)
    ensures
        res.deep_view() == ConnectorErrorView::Config(
            "cannot read "@ + path@ + ": "@ + complaint@,
        ),
{
    ConnectorError::Config("cannot read ".to_owned().concat(path).concat(": ").concat(complaint))
}

/// The error for a catalog that is not understood.
pub fn parse_error(path: &str, complaint: &str) -> (res: ConnectorError)
    ensures
        res.deep_view() == ConnectorErrorView::Config(
            "TOML parse error in "@ + path@ + ": "@ + complaint@,
        ),
{
    ConnectorError::Config(
        "TOML parse error in ".to_owned().concat(path).concat(": ").concat(complaint),
    )
}

} // verus!
