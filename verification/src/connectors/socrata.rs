//! Generic Socrata SODA connector.
//!
//! Parameterized by domain, dataset and column map, and pre-configured for
//! Austin, Dallas, Sonoma and Long Beach. A delta poll asks for rows updated
//! after the cursor's instant. The datasets have no photos.

use serde_json::Value;
use url::Url;
use vstd::prelude::*;

use crate::error;
use crate::error::{ConnectorError, ConnectorErrorView};
use crate::json;
use crate::json::Json;
use crate::outcome;
use crate::query;
use crate::poll;
use crate::poll::PollView;
use crate::span;
use crate::schema::{
    Availability, ChipStatus, ChipStatusView, Cursor, IntakeType, PetRecord, PetRecordView,
    Provenance, ProvenanceView, SourceId, SourceIdView, Species, Stamp, TosClass,
};
use crate::text;
use crate::time;
use crate::time::{Moment, Timestamp};
use crate::web;

verus! {

/// Maximum number of rows to fetch per SODA page.
pub const PAGE_SIZE: u64 = 1000;

/// The pause between requests to the source, in milliseconds.
pub const MIN_INTERVAL_MS: u64 = 200;

/// Maps source column names to the canonical fields we care about.
#[derive(Debug, Clone, PartialEq, Eq)]
pub struct SocrataColumnMap {
    /// Column for animal ID.
    pub animal_id: String,
    /// Column for species / animal type.
    pub animal_type: String,
    /// Column for intake type.
    pub intake_type: String,
    /// Column for availability / outcome date (or kennel status).
    pub outcome_date: Option<String>,
    /// Column for kennel / custody status.
    pub kennel_status: Option<String>,
    /// Column for found location text.
    pub found_location: Option<String>,
    /// Column for chip / microchip status.
    pub chip_status: Option<String>,
    /// Column for intake date.
    pub intake_date: Option<String>,
    /// Breed column name.
    pub breed: Option<String>,
    /// Name column.
    pub name: Option<String>,
    /// Color column.
    pub color: Option<String>,
}

/// The model of a [`SocrataColumnMap`].
pub struct ColumnMapView {
    /// Column for animal ID.
    pub animal_id: Seq<char>,
    /// Column for species / animal type.
    pub animal_type: Seq<char>,
    /// Column for intake type.
    pub intake_type: Seq<char>,
    /// Column for outcome date.
    pub outcome_date: Option<Seq<char>>,
    /// Column for kennel / custody status.
    pub kennel_status: Option<Seq<char>>,
    /// Column for found location text.
    pub found_location: Option<Seq<char>>,
    /// Column for chip / microchip status.
    pub chip_status: Option<Seq<char>>,
    /// Column for intake date.
    pub intake_date: Option<Seq<char>>,
    /// Breed column name.
    pub breed: Option<Seq<char>>,
    /// Name column.
    pub name: Option<Seq<char>>,
    /// Color column.
    pub color: Option<Seq<char>>,
}

impl DeepView for SocrataColumnMap {
    type V = ColumnMapView;

    open spec fn deep_view(&self) -> ColumnMapView {
        ColumnMapView {
            animal_id: self.animal_id@,
            animal_type: self.animal_type@,
            intake_type: self.intake_type@,
            outcome_date: self.outcome_date.deep_view(),
            kennel_status: self.kennel_status.deep_view(),
            found_location: self.found_location.deep_view(),
            chip_status: self.chip_status.deep_view(),
            intake_date: self.intake_date.deep_view(),
            breed: self.breed.deep_view(),
            name: self.name.deep_view(),
            color: self.color.deep_view(),
        }
    }
}

/// Configuration for one Socrata dataset.
#[derive(Debug, Clone, PartialEq, Eq)]
pub struct SocrataConfig {
    /// SODA API domain (e.g. `data.austintexas.gov`).
    pub domain: String,
    /// Dataset 4-by-4 ID (e.g. `fdzn-9yqv`).
    pub dataset_id: String,
    /// Human-readable name for this source.
    pub name: String,
    /// Column mapping.
    pub column_map: SocrataColumnMap,
    /// Optional env var name whose value is the SODA app token.
    pub app_token_env: Option<String>,
}

/// The model of a [`SocrataConfig`].
pub struct SocrataConfigView {
    /// SODA API domain.
    pub domain: Seq<char>,
    /// Dataset 4-by-4 ID.
    pub dataset_id: Seq<char>,
    /// Name of this source.
    pub name: Seq<char>,
    /// Column mapping.
    pub column_map: ColumnMapView,
    /// Optional env var name whose value is the SODA app token.
    pub app_token_env: Option<Seq<char>>,
}

impl DeepView for SocrataConfig {
    type V = SocrataConfigView;

    open spec fn deep_view(&self) -> SocrataConfigView {
        SocrataConfigView {
            domain: self.domain@,
            dataset_id: self.dataset_id@,
            name: self.name@,
            column_map: self.column_map.deep_view(),
            app_token_env: self.app_token_env.deep_view(),
        }
    }
}

// ---------------------------------------------------------------------------
// Built-in sources
// ---------------------------------------------------------------------------

/// Austin Animal Center Intakes.
pub open spec fn austin_config() -> SocrataConfigView {
    SocrataConfigView {
        domain: "data.austintexas.gov"@,
        dataset_id: "fdzn-9yqv"@,
        name: "austin"@,
        column_map: ColumnMapView {
            animal_id: "animal_id"@,
            animal_type: "animal_type"@,
            intake_type: "intake_type"@,
            outcome_date: None,
            kennel_status: None,
            found_location: Some("found_location"@),
            chip_status: None,
            intake_date: Some("datetime"@),
            breed: Some("breed"@),
            name: Some("name"@),
            color: Some("color"@),
        },
        app_token_env: Some("SOCRATA_APP_TOKEN"@),
    }
}

/// Dallas Animal Services.
pub open spec fn dallas_config() -> SocrataConfigView {
    SocrataConfigView {
        domain: "www.dallasopendata.com"@,
        dataset_id: "qgg6-h4bd"@,
        name: "dallas"@,
        column_map: ColumnMapView {
            animal_id: "animal_id"@,
            animal_type: "animal_type"@,
            intake_type: "intake_type"@,
            outcome_date: Some("outcome_datetime"@),
            kennel_status: Some("kennel_status"@),
            found_location: Some("found_location"@),
            chip_status: Some("chip_status"@),
            intake_date: Some("intake_date"@),
            breed: Some("breed"@),
            name: Some("animal_name"@),
            color: Some("color"@),
        },
        app_token_env: Some("SOCRATA_APP_TOKEN"@),
    }
}

/// Sonoma County Animal Services.
pub open spec fn sonoma_config() -> SocrataConfigView {
    SocrataConfigView {
        domain: "data.sonomacounty.ca.gov"@,
        dataset_id: "924a-vesw"@,
        name: "sonoma"@,
        column_map: ColumnMapView {
            animal_id: "id"@,
            animal_type: "type"@,
            intake_type: "intake_subtype"@,
            outcome_date: Some("outcome_date"@),
            kennel_status: None,
            found_location: Some("location_found"@),
            chip_status: None,
            intake_date: Some("intake_date"@),
            breed: Some("primary_breed"@),
            name: Some("name"@),
            color: Some("primary_color"@),
        },
        app_token_env: Some("SOCRATA_APP_TOKEN"@),
    }
}

/// Long Beach Animal Care Services.
pub open spec fn long_beach_config() -> SocrataConfigView {
    SocrataConfigView {
        domain: "data.longbeach.gov"@,
        dataset_id: "d9np-nk5h"@,
        name: "long_beach"@,
        column_map: ColumnMapView {
            animal_id: "animal_id"@,
            animal_type: "animal_type"@,
            intake_type: "intake_type"@,
            outcome_date: Some("outcome_date"@),
            kennel_status: None,
            found_location: Some("found_location"@),
            chip_status: None,
            intake_date: Some("intake_date"@),
            breed: Some("primary_breed"@),
            name: Some("animal_name"@),
            color: Some("primary_color"@),
        },
        app_token_env: Some("SOCRATA_APP_TOKEN"@),
    }
}

impl SocrataConfig {
    /// Austin Animal Center Intakes — `fdzn-9yqv`.
    #[must_use]
    pub fn austin() -> (res: Self)
        ensures
            res.deep_view() == austin_config(),
    {
        SocrataConfig {
            domain: "data.austintexas.gov".to_owned(),
            dataset_id: "fdzn-9yqv".to_owned(),
            name: "austin".to_owned(),
            column_map: SocrataColumnMap {
                animal_id: "animal_id".to_owned(),
                animal_type: "animal_type".to_owned(),
                intake_type: "intake_type".to_owned(),
                outcome_date: None,
                kennel_status: None,
                found_location: Some("found_location".to_owned()),
                chip_status: None,
                intake_date: Some("datetime".to_owned()),
                breed: Some("breed".to_owned()),
                name: Some("name".to_owned()),
                color: Some("color".to_owned()),
            },
            app_token_env: Some("SOCRATA_APP_TOKEN".to_owned()),
        }
    }

    /// Dallas Animal Services — `qgg6-h4bd`.
    #[must_use]
    pub fn dallas() -> (res: Self)
        ensures
            res.deep_view() == dallas_config(),
    {
        SocrataConfig {
            domain: "www.dallasopendata.com".to_owned(),
            dataset_id: "qgg6-h4bd".to_owned(),
            name: "dallas".to_owned(),
            column_map: SocrataColumnMap {
                animal_id: "animal_id".to_owned(),
                animal_type: "animal_type".to_owned(),
                intake_type: "intake_type".to_owned(),
                outcome_date: Some("outcome_datetime".to_owned()),
                kennel_status: Some("kennel_status".to_owned()),
                found_location: Some("found_location".to_owned()),
                chip_status: Some("chip_status".to_owned()),
                intake_date: Some("intake_date".to_owned()),
                breed: Some("breed".to_owned()),
                name: Some("animal_name".to_owned()),
                color: Some("color".to_owned()),
            },
            app_token_env: Some("SOCRATA_APP_TOKEN".to_owned()),
        }
    }

    /// Sonoma County Animal Services — `924a-vesw`.
    #[must_use]
    pub fn sonoma() -> (res: Self)
        ensures
            res.deep_view() == sonoma_config(),
    {
        SocrataConfig {
            domain: "data.sonomacounty.ca.gov".to_owned(),
            dataset_id: "924a-vesw".to_owned(),
            name: "sonoma".to_owned(),
            column_map: SocrataColumnMap {
                animal_id: "id".to_owned(),
                animal_type: "type".to_owned(),
                intake_type: "intake_subtype".to_owned(),
                outcome_date: Some("outcome_date".to_owned()),
                kennel_status: None,
                found_location: Some("location_found".to_owned()),
                chip_status: None,
                intake_date: Some("intake_date".to_owned()),
                breed: Some("primary_breed".to_owned()),
                name: Some("name".to_owned()),
                color: Some("primary_color".to_owned()),
            },
            app_token_env: Some("SOCRATA_APP_TOKEN".to_owned()),
        }
    }

    /// Long Beach Animal Care Services.
    #[must_use]
    pub fn long_beach() -> (res: Self)
        ensures
            res.deep_view() == long_beach_config(),
    {
        SocrataConfig {
            domain: "data.longbeach.gov".to_owned(),
            dataset_id: "d9np-nk5h".to_owned(),
            name: "long_beach".to_owned(),
            column_map: SocrataColumnMap {
                animal_id: "animal_id".to_owned(),
                animal_type: "animal_type".to_owned(),
                intake_type: "intake_type".to_owned(),
                outcome_date: Some("outcome_date".to_owned()),
                kennel_status: None,
                found_location: Some("found_location".to_owned()),
                chip_status: None,
                intake_date: Some("intake_date".to_owned()),
                breed: Some("primary_breed".to_owned()),
                name: Some("animal_name".to_owned()),
                color: Some("primary_color".to_owned()),
            },
            app_token_env: Some("SOCRATA_APP_TOKEN".to_owned()),
        }
    }
}

// ---------------------------------------------------------------------------
// Normalization
// ---------------------------------------------------------------------------

/// The species that a word names, in any case and with space around it; the
/// word in upper case where it names none.
pub open spec fn species_of(s: Seq<char>) -> Result<Species, ConnectorErrorView> {
    let word = text::uppercase(text::trimmed(s));
    if word == "DOG"@ || word == "CANINE"@ {
        Ok(Species::Dog)
    } else if word == "CAT"@ || word == "FELINE"@ {
        Ok(Species::Cat)
    } else {
        Err(ConnectorErrorView::UnknownSpecies(word))
    }
}

/// The species that a word names, in any case and with space around it.
pub fn parse_socrata_species(s: &str) -> (res: Result<Species, ConnectorError>)
    ensures
        match res {
            Ok(v) => species_of(s@) == Ok::<Species, ConnectorErrorView>(v),
            Err(e) => species_of(s@) == Err::<Species, ConnectorErrorView>(e.deep_view()),
        },
{
    let word = text::upper(s.trim());
    if text::same(&word, "DOG") || text::same(&word, "CANINE") {
        Ok(Species::Dog)
    } else if text::same(&word, "CAT") || text::same(&word, "FELINE") {
        Ok(Species::Cat)
    } else {
        Err(ConnectorError::UnknownSpecies(word))
    }
}

/// The intake type that a word names, in any case and with space around it.
pub open spec fn soda_intake_type(s: Seq<char>) -> IntakeType {
    let word = text::uppercase(text::trimmed(s));
    if word == "STRAY"@ {
        IntakeType::Stray
    } else if word == "OWNER SURRENDER"@ || word == "OWNER_SURRENDER"@ {
        IntakeType::OwnerSurrender
    } else if word == "FOUND REPORT"@ || word == "FOUND_REPORT"@ {
        IntakeType::FoundReport
    } else if word == "TRANSFER"@ {
        IntakeType::Transfer
    } else {
        IntakeType::Unknown
    }
}

/// Maps Socrata `Intake_Type` strings to [`IntakeType`].
pub fn parse_socrata_intake_type(s: &str) -> (res: IntakeType)
    ensures
        res == soda_intake_type(s@),
{
    let word = text::upper(s.trim());
    if text::same(&word, "STRAY") {
        IntakeType::Stray
    } else if text::same(&word, "OWNER SURRENDER") || text::same(&word, "OWNER_SURRENDER") {
        IntakeType::OwnerSurrender
    } else if text::same(&word, "FOUND REPORT") || text::same(&word, "FOUND_REPORT") {
        IntakeType::FoundReport
    } else if text::same(&word, "TRANSFER") {
        IntakeType::Transfer
    } else {
        IntakeType::Unknown
    }
}

/// What a kennel status says of an animal's whereabouts.
pub open spec fn kennel_availability(status: Seq<char>) -> Option<Availability> {
    let v = text::uppercase(status);
    if text::has(v, "ADOPTED"@) || text::has(v, "TRANSFERRED"@) || text::has(v, "DIED"@) {
        Some(Availability::Departed)
    } else if text::has(v, "AVAILABLE"@) || text::has(v, "ADOPT"@) {
        Some(Availability::Adoptable)
    } else {
        None
    }
}

/// An animal with an outcome date has left; otherwise its kennel status decides
/// where it says anything; otherwise it is in custody.
pub open spec fn soda_availability(row: Json, cm: ColumnMapView) -> Availability {
    let outcome = json::opt_cell_of(row, cm.outcome_date);
    let kennel = json::opt_cell_of(row, cm.kennel_status);
    if outcome is Some && outcome->0.len() > 0 {
        Availability::Departed
    } else if kennel is Some && kennel_availability(kennel->0) is Some {
        kennel_availability(kennel->0)->0
    } else {
        Availability::InCustody
    }
}

/// Determines availability from the outcome-date and kennel-status columns.
pub fn determine_availability(row: &Value, cm: &SocrataColumnMap) -> (res: Availability)
    ensures
        res == soda_availability(json::contents(*row), cm.deep_view()),
{
    if let Some(v) = json::opt_cell(row, &cm.outcome_date) {
        if !v.is_empty() {
            return Availability::Departed;
        }
    }
    if let Some(v) = json::opt_cell(row, &cm.kennel_status) {
        let v = text::upper(v);
        if text::contains(&v, "ADOPTED") || text::contains(&v, "TRANSFERRED") || text::contains(
            &v,
            "DIED",
        ) {
            return Availability::Departed;
        }
        if text::contains(&v, "AVAILABLE") || text::contains(&v, "ADOPT") {
            return Availability::Adoptable;
        }
    }
    Availability::InCustody
}

/// What a chip column's text says: a denial wins over an affirmation.
pub open spec fn chip_status_of(s: Seq<char>) -> ChipStatusView {
    let v = text::uppercase(text::trimmed(s));
    if text::has(v, "NO"@) || text::has(v, "NOT"@) || text::has(v, "NONE"@) {
        ChipStatusView::ScanNoChip
    } else if text::has(v, "YES"@) || text::has(v, "SCANNED"@) {
        ChipStatusView::Scanned { chip: None }
    } else {
        ChipStatusView::Unknown
    }
}

/// What a chip column's text says: a denial wins over an affirmation.
pub fn parse_socrata_chip_status(s: &str) -> (res: ChipStatus)
    ensures
        res.deep_view() == chip_status_of(s@),
{
    let v = text::upper(s.trim());
    if text::contains(&v, "NO") || text::contains(&v, "NOT") || text::contains(&v, "NONE") {
        ChipStatus::ScanNoChip
    } else if text::contains(&v, "YES") || text::contains(&v, "SCANNED") {
        ChipStatus::Scanned { chip: None }
    } else {
        ChipStatus::Unknown
    }
}

/// The instant that a SODA date names: RFC 3339, or a date and time without a
/// zone, either with a space for the `T`; or a day.
pub open spec fn soda_instant(s: Seq<char>) -> Option<Moment> {
    let t = text::replaced_first(s, ' ', 'T');
    if time::rfc3339_instant(t) is Ok {
        Some(time::rfc3339_instant(t)->Ok_0)
    } else if time::formatted_instant(t, "%Y-%m-%dT%H:%M:%S%.f"@) is Some {
        time::formatted_instant(t, "%Y-%m-%dT%H:%M:%S%.f"@)
    } else if time::formatted_instant(t, "%Y-%m-%dT%H:%M:%S"@) is Some {
        time::formatted_instant(t, "%Y-%m-%dT%H:%M:%S"@)
    } else {
        time::formatted_day(s, "%Y-%m-%d"@)
    }
}

/// Reads a SODA date.
pub fn parse_soda_datetime(s: &str) -> (res: Option<Timestamp>)
    ensures
        res.deep_view() == soda_instant(s@),
{
    let t = text::replace_first(s, ' ', 'T');
    if let Ok(ts) = time::read_rfc3339(&t) {
        return Some(ts);
    }
    if let Some(ts) = time::read_datetime(&t, "%Y-%m-%dT%H:%M:%S%.f") {
        return Some(ts);
    }
    if let Some(ts) = time::read_datetime(&t, "%Y-%m-%dT%H:%M:%S") {
        return Some(ts);
    }
    time::read_date(s, "%Y-%m-%d")
}

/// The instant in a date column, where it is named and readable.
pub open spec fn soda_date(row: Json, col: Option<Seq<char>>) -> Option<Moment> {
    match json::opt_cell_of(row, col) {
        Some(s) => soda_instant(s),
        None => None,
    }
}

fn date_cell(row: &Value, col: &Option<String>) -> (res: Option<Timestamp>)
    ensures
        res.deep_view() == soda_date(json::contents(*row), col.deep_view()),
{
    match json::opt_cell(row, col) {
        Some(s) => parse_soda_datetime(s),
        None => None,
    }
}

/// A text that may be missing, with a stand-in.
pub open spec fn or_else(s: Option<Seq<char>>, other: Seq<char>) -> Seq<char> {
    match s {
        Some(v) => v,
        None => other,
    }
}

/// A text that may be missing, as a row of at most one.
pub open spec fn at_most_one(s: Option<Seq<char>>) -> Seq<Seq<char>> {
    match s {
        Some(v) => seq![v],
        None => Seq::empty(),
    }
}

/// A text that may be missing, as a row of at most one.
pub fn one_or_none(s: Option<String>) -> (res: Vec<String>)
    ensures
        res.deep_view() == at_most_one(s.deep_view()),
{
    match s {
        Some(v) => {
            let out = vec![v];
            assert(out.deep_view() =~= seq![v@]);
            out
        },
        None => {
            let out: Vec<String> = Vec::new();
            assert(out.deep_view() =~= Seq::<Seq<char>>::empty());
            out
        },
    }
}

/// The record of a row that was read at `now` and is given the identifier `id`;
/// an error where the species is not known.
pub open spec fn soda_record(
    row: Json,
    config: SocrataConfigView,
    id: u128,
    now: Moment,
) -> Result<PetRecordView, ConnectorErrorView> {
    let cm = config.column_map;
    let intake_date = soda_date(row, cm.intake_date);
    let seen = if intake_date is Some {
        intake_date->0
    } else {
        now
    };
    match species_of(or_else(json::cell_of(row, cm.animal_type), "unknown"@)) {
        Err(e) => Err(e),
        Ok(species) => Ok(
            PetRecordView {
                canonical_id: id,
                source: SourceIdView { name: config.name, tos_class: TosClass::OpenData },
                source_animal_id: json::cell_of(row, cm.animal_id),
                species,
                breed_primary: json::opt_cell_of(row, cm.breed),
                breed_secondary: None,
                sex: None,
                age_bucket: None,
                size: None,
                colors: at_most_one(json::opt_cell_of(row, cm.color)),
                markings_text: None,
                intake_type: soda_intake_type(or_else(json::cell_of(row, cm.intake_type), ""@)),
                availability: soda_availability(row, cm),
                chip_status: match json::opt_cell_of(row, cm.chip_status) {
                    Some(s) => chip_status_of(s),
                    None => ChipStatusView::Unknown,
                },
                location: None,
                found_location_text: json::opt_cell_of(row, cm.found_location),
                photos: Seq::empty(),
                first_seen: seen,
                last_seen: seen,
                last_confirmed: Some(now),
                intake_date,
                outcome_date: soda_date(row, cm.outcome_date),
                secondary_provenances: Seq::empty(),
            },
        ),
    }
}

/// Normalizes one row that was read at the stamp's instant.
pub fn normalize_socrata_row_at(row: &Value, config: &SocrataConfig, stamp: &Stamp) -> (res: Result<
    PetRecord,
    ConnectorError,
>)
    ensures
        outcome::of(res) == soda_record(
            json::contents(*row),
            config.deep_view(),
            stamp.id,
            stamp.now@,
        ),
{
    let cm = &config.column_map;
    let animal_id = match json::cell(row, &cm.animal_id) {
        Some(s) => Some(s.to_owned()),
        None => None,
    };
    let animal_type = match json::cell(row, &cm.animal_type) {
        Some(s) => s,
        None => "unknown",
    };
    let species = match parse_socrata_species(animal_type) {
        Ok(v) => v,
        Err(e) => return Err(e),
    };
    let intake_type = match json::cell(row, &cm.intake_type) {
        Some(s) => parse_socrata_intake_type(s),
        None => parse_socrata_intake_type(""),
    };
    let availability = determine_availability(row, cm);
    let chip_status = match json::opt_cell(row, &cm.chip_status) {
        Some(s) => parse_socrata_chip_status(s),
        None => ChipStatus::Unknown,
    };
    let intake_date = date_cell(row, &cm.intake_date);
    let outcome_date = date_cell(row, &cm.outcome_date);
    let seen = match intake_date {
        Some(ts) => ts,
        None => stamp.now,
    };
    let rec = PetRecord {
        canonical_id: stamp.id,
        source: SourceId::new(&config.name, TosClass::OpenData),
        source_animal_id: animal_id,
        species,
        breed_primary: json::opt_text(row, &cm.breed),
        breed_secondary: None,
        sex: None,
        age_bucket: None,
        size: None,
        colors: one_or_none(json::opt_text(row, &cm.color)),
        markings_text: None,
        intake_type,
        availability,
        chip_status,
        location: None,
        found_location_text: json::opt_text(row, &cm.found_location),
        photos: Vec::new(),
        first_seen: seen,
        last_seen: seen,
        last_confirmed: Some(stamp.now),
        intake_date,
        outcome_date,
        secondary_provenances: Vec::new(),
    };
    proof {
        assert(rec.photos.deep_view() =~= Seq::empty());
        assert(rec.secondary_provenances.deep_view() =~= Seq::empty());
    }
    Ok(rec)
}

/// Normalizes one row, with a fresh identifier and the current instant.
pub fn normalize_socrata_row(row: &Value, config: &SocrataConfig) -> (res: Result<
    PetRecord,
    ConnectorError,
>)
    ensures
        exists|id: u128, now: Moment|
            time::clock_shows(now) && outcome::of(res) == #[trigger] soda_record(
                json::contents(*row),
                config.deep_view(),
                id,
                now,
            ),
{
    let stamp = Stamp::fresh();
    normalize_socrata_row_at(row, config, &stamp)
}

// ---------------------------------------------------------------------------
// Polling
// ---------------------------------------------------------------------------

/// The address of a dataset's rows.
pub open spec fn resource_url(config: SocrataConfigView) -> Seq<char> {
    "https://"@ + config.domain + "/resource/"@ + config.dataset_id + ".json"@
}

/// Dogs and cats; in a delta poll, those updated after an instant.
pub open spec fn soda_where(config: SocrataConfigView, since: Option<Moment>) -> Seq<char> {
    let animals = "upper("@ + config.column_map.animal_type + ") in ('DOG', 'CAT')"@;
    match since {
        Some(m) => animals + " AND "@ + ":updated_at > '"@ + time::formatted(
            m,
            "%Y-%m-%dT%H:%M:%S"@,
        ) + "'"@,
        None => animals,
    }
}

/// The query of one page, newest rows first, with the app token where the
/// configuration asks for one and one is set.
pub open spec fn soda_query(
    config: SocrataConfigView,
    offset: nat,
    since: Option<Moment>,
    token: Option<Seq<char>>,
) -> Seq<(Seq<char>, Seq<char>)> {
    let query = seq![
        ("$limit"@, text::decimal(PAGE_SIZE as nat)),
        ("$offset"@, text::decimal(offset)),
        ("$where"@, soda_where(config, since)),
        ("$order"@, ":updated_at DESC"@),
    ];
    if config.app_token_env is Some && token is Some {
        query.push(("$$app_token"@, token->0))
    } else {
        query
    }
}

/// The records of the rows that can be normalized, in order; the other rows are
/// skipped.
pub open spec fn soda_records(
    rows: Seq<Json>,
    config: SocrataConfigView,
    stamps: Seq<Stamp>,
) -> Seq<PetRecordView>
    decreases rows.len(),
{
    if rows.len() == 0 {
        Seq::empty()
    } else {
        let before = soda_records(rows.drop_last(), config, stamps);
        let stamp = stamps[rows.len() - 1];
        match soda_record(rows.last(), config, stamp.id, stamp.now@) {
            Ok(rec) => before.push(rec),
            Err(_) => before,
        }
    }
}

/// The address that a source's provenance names.
pub open spec fn soda_provenance(config: SocrataConfigView, now: Moment) -> ProvenanceView {
    ProvenanceView {
        source: SourceIdView { name: config.name, tos_class: TosClass::OpenData },
        fetched_at: now,
        source_url: Some(resource_url(config)),
        source_etag: None,
    }
}

/// Generic Socrata SODA connector.
pub struct SocrataConnector {
    /// The dataset to poll.
    pub config: SocrataConfig,
}

impl SocrataConnector {
    /// A connector for one dataset.
    pub fn new(config: SocrataConfig) -> (res: Self)
        ensures
            res.config == config,
    {
        SocrataConnector { config }
    }

    fn resource(&self) -> (res: String)
        ensures
            res@ == resource_url(self.config.deep_view()),
    {
        "https://".to_owned().concat(&self.config.domain).concat("/resource/").concat(
            &self.config.dataset_id,
        ).concat(".json")
    }

    /// Builds the SODA query URL for a page offset, an optional cursor and the
    /// app token, if one is set in the environment.
    pub fn build_url(
        &self,
        offset: u64,
        since: Option<&Timestamp>,
        token: Option<&str>,
    ) -> (res: Result<Url, ConnectorError>)
        ensures
            error::url_outcome(res) == error::url_result(
                web::built(
                    resource_url(self.config.deep_view()),
                    soda_query(
                        self.config.deep_view(),
                        offset as nat,
                        since.deep_view(),
                        token.deep_view(),
                    ),
                ),
            ),
    {
        let animals = "upper(".to_owned().concat(&self.config.column_map.animal_type).concat(
            ") in ('DOG', 'CAT')",
        );
        let filter = match since {
            Some(ts) => animals.concat(" AND ").concat(":updated_at > '").concat(
                &time::write_datetime(ts, "%Y-%m-%dT%H:%M:%S"),
            ).concat("'"),
            None => animals,
        };
        let mut query: Vec<(String, String)> = Vec::new();
        query.push(web::pair("$limit", text::write_decimal(PAGE_SIZE)));
        query.push(web::pair("$offset", text::write_decimal(offset)));
        query.push(web::pair("$where", filter));
        query.push(web::pair("$order", ":updated_at DESC".to_owned()));
        if self.config.app_token_env.is_some() {
            if let Some(token) = token {
                query.push(web::pair("$$app_token", token.to_owned()));
            }
        }
        proof {
            assert(web::pairs_of(query@) =~= soda_query(
                self.config.deep_view(),
                offset as nat,
                since.deep_view(),
                token.deep_view(),
            ));
        }
        error::url_or_error(web::build(&self.resource(), &query))
    }

    /// Where records come from that were fetched at `now`.
    pub fn provenance_at(&self, now: Timestamp) -> (res: Provenance)
        ensures
            res.deep_view() == soda_provenance(self.config.deep_view(), now@),
    {
        Provenance {
            source: SourceId::new(&self.config.name, TosClass::OpenData),
            fetched_at: now,
            source_url: Some(self.resource()),
            source_etag: None,
        }
    }

    /// Where records come from that are fetched now.
    pub fn provenance(&self) -> (res: Provenance)
        ensures
            res.deep_view() == soda_provenance(self.config.deep_view(), res.fetched_at@),
            time::clock_shows(res.fetched_at@),
    {
        self.provenance_at(time::now())
    }

    /// How often to poll: municipal shelters update frequently, so every four
    /// hours.
    pub fn cadence_hint(&self) -> (res: std::time::Duration)
        ensures
            span::nanos_of(res) == 4 * 3600 * 1_000_000_000,
    {
        std::time::Duration::from_secs(4 * 3600)
    }

    /// Begins a poll.
    pub fn start_poll(&self, since: &Option<Cursor>) -> (res: SocrataPoll)
        ensures
            res@ == poll::begun(Cursor::instant(*since)),
    {
        let res = SocrataPoll {
            since: Cursor::since(since),
            offset: 0,
            records: Vec::new(),
            done: false,
        };
        assert(res.records.deep_view() =~= Seq::empty());
        res
    }
}

/// A poll under way: what is still to be fetched and what has been gathered.
pub struct SocrataPoll {
    /// Only rows updated after this instant are asked for.
    pub since: Option<Timestamp>,
    /// Where the next page begins.
    pub offset: u64,
    /// The records so far.
    pub records: Vec<PetRecord>,
    /// Whether the last page has been read.
    pub done: bool,
}

impl View for SocrataPoll {
    type V = PollView;

    open spec fn view(&self) -> PollView {
        PollView {
            since: self.since.deep_view(),
            offset: self.offset as nat,
            records: self.records.deep_view(),
            done: self.done,
        }
    }
}

impl SocrataPoll {
    /// The URL of the next page.
    pub fn next_url(&self, connector: &SocrataConnector, token: Option<&str>) -> (res: Result<
        Url,
        ConnectorError,
    >)
        ensures
            error::url_outcome(res) == error::url_result(
                web::built(
                    resource_url(connector.config.deep_view()),
                    soda_query(
                        connector.config.deep_view(),
                        self.offset as nat,
                        self.since.deep_view(),
                        token.deep_view(),
                    ),
                ),
            ),
    {
        connector.build_url(self.offset, self.since.as_ref(), token)
    }

    /// Takes note of a reply that says nothing has changed: the poll is over.
    pub fn not_modified(&mut self)
        ensures
            final(self)@ == old(self)@.unchanged(),
            final(self).records == old(self).records,
    {
        self.done = true;
    }

    /// Takes in one page of rows: the records of those that can be normalized
    /// are kept, and a short page is the last.
    pub fn absorb(&mut self, rows: &Vec<Value>, config: &SocrataConfig, stamps: &Vec<Stamp>)
        requires
            stamps.len() == rows.len(),
            old(self).offset + PAGE_SIZE <= u64::MAX,
        ensures
            final(self).records.deep_view() == old(self).records.deep_view() + soda_records(
                json::all_contents(rows@),
                config.deep_view(),
                stamps@,
            ),
            final(self).offset == old(self).offset + PAGE_SIZE,
            final(self).done == (rows.len() < PAGE_SIZE),
            final(self).since == old(self).since,
    {
        let ghost all = json::all_contents(rows@);
        let ghost before = self.records.deep_view();
        let mut i: usize = 0;
        while i < rows.len()
            invariant
                i <= rows.len(),
                stamps.len() == rows.len(),
                all == json::all_contents(rows@),
                self.offset == old(self).offset,
                self.since == old(self).since,
                before == old(self).records.deep_view(),
                self.records.deep_view() =~= before + soda_records(
                    all.take(i as int),
                    config.deep_view(),
                    stamps@,
                ),
            decreases rows.len() - i,
        {
            proof {
                assert(all.take(i + 1).drop_last() == all.take(i as int));
                assert(all.take(i + 1).last() == json::contents(rows@[i as int]));
            }
            match normalize_socrata_row_at(&rows[i], config, &stamps[i]) {
                Ok(rec) => {
                    let ghost sofar = self.records.deep_view();
                    self.records.push(rec);
                    proof {
                        assert(self.records.deep_view() =~= sofar.push(rec.deep_view()));
                    }
                },
                Err(_) => {},
            }
            i += 1;
        }
        proof {
            assert(all.take(rows.len() as int) == all);
        }
        self.offset = self.offset + PAGE_SIZE;
        self.done = (rows.len() as u64) < PAGE_SIZE;
    }
}

// ---------------------------------------------------------------------------
// Validation
// ---------------------------------------------------------------------------

/// The first required field of a configuration that is empty.
pub open spec fn empty_field(cfg: SocrataConfigView) -> Option<Seq<char>> {
    if cfg.name.len() == 0 {
        Some("name"@)
    } else if cfg.domain.len() == 0 {
        Some("domain"@)
    } else if cfg.dataset_id.len() == 0 {
        Some("dataset_id"@)
    } else if cfg.column_map.animal_id.len() == 0 {
        Some("column_map.animal_id"@)
    } else if cfg.column_map.animal_type.len() == 0 {
        Some("column_map.animal_type"@)
    } else if cfg.column_map.intake_type.len() == 0 {
        Some("column_map.intake_type"@)
    } else {
        None
    }
}

/// The complaint about a configuration with an empty required field.
pub open spec fn config_fault(cfg: SocrataConfigView) -> Option<ConnectorErrorView> {
    let label = if cfg.name.len() == 0 {
        "<unnamed>"@
    } else {
        cfg.name
    };
    match empty_field(cfg) {
        Some(field) => Some(
            ConnectorErrorView::Config(
                "source "@ + label + ": required field '"@ + field + "' is empty"@,
            ),
        ),
        None => None,
    }
}

/// Validates that all required fields are non-empty.
pub fn validate_socrata_config(cfg: &SocrataConfig) -> (res: Result<(), ConnectorError>)
    ensures
        match res {
            Ok(()) => config_fault(cfg.deep_view()) is None,
            Err(e) => config_fault(cfg.deep_view()) == Some(e.deep_view()),
        },
{
    let label = if cfg.name.as_str().is_empty() {
        "<unnamed>"
    } else {
        cfg.name.as_str()
    };
    let field = if cfg.name.as_str().is_empty() {
        "name"
    } else if cfg.domain.as_str().is_empty() {
        "domain"
    } else if cfg.dataset_id.as_str().is_empty() {
        "dataset_id"
    } else if cfg.column_map.animal_id.as_str().is_empty() {
        "column_map.animal_id"
    } else if cfg.column_map.animal_type.as_str().is_empty() {
        "column_map.animal_type"
    } else if cfg.column_map.intake_type.as_str().is_empty() {
        "column_map.intake_type"
    } else {
        return Ok(());
    };
    Err(
        ConnectorError::Config(
            "source ".to_owned().concat(label).concat(": required field '").concat(field).concat(
                "' is empty",
            ),
        ),
    )
}

/// Loader for the Socrata entries of a `sources.toml` file.
pub struct SourceCatalog;

impl SourceCatalog {
    /// Hands back the entries of a file if each of them is valid; otherwise the
    /// complaint about the first that is not.
    pub fn from_entries(entries: Vec<SocrataConfig>) -> (res: Result<
        Vec<SocrataConfig>,
        ConnectorError,
    >)
        ensures
            match res {
                Ok(configs) => configs == entries && forall|i: int|
                    0 <= i < entries.len() ==> config_fault(
                        (#[trigger] entries@[i]).deep_view(),
                    ) is None,
                Err(e) => exists|i: int|
                    0 <= i < entries.len() && config_fault((#[trigger] entries@[i]).deep_view())
                        == Some(e.deep_view()) && forall|j: int|
                        0 <= j < i ==> config_fault((#[trigger] entries@[j]).deep_view()) is None,
            },
    {
        let mut i: usize = 0;
        while i < entries.len()
            invariant
                i <= entries.len(),
                forall|j: int|
                    0 <= j < i ==> config_fault((#[trigger] entries@[j]).deep_view()) is None,
            decreases entries.len() - i,
        {
            if let Err(e) = validate_socrata_config(&entries[i]) {
                return Err(e);
            }
            i += 1;
        }
        Ok(entries)
    }
}

// ---------------------------------------------------------------------------
// Laws
// ---------------------------------------------------------------------------

/// Each of the built-in sources is a valid configuration, and no two of them
/// share a name.
pub proof fn built_ins_are_valid()
    ensures
        config_fault(austin_config()) is None,
        config_fault(dallas_config()) is None,
        config_fault(sonoma_config()) is None,
        config_fault(long_beach_config()) is None,
        austin_config().name != dallas_config().name,
        austin_config().name != sonoma_config().name,
        austin_config().name != long_beach_config().name,
        dallas_config().name != sonoma_config().name,
        dallas_config().name != long_beach_config().name,
        sonoma_config().name != long_beach_config().name,
{
    reveal_strlit("austin");
    reveal_strlit("dallas");
    reveal_strlit("sonoma");
    reveal_strlit("long_beach");
    reveal_strlit("data.austintexas.gov");
    reveal_strlit("www.dallasopendata.com");
    reveal_strlit("data.sonomacounty.ca.gov");
    reveal_strlit("data.longbeach.gov");
    reveal_strlit("fdzn-9yqv");
    reveal_strlit("qgg6-h4bd");
    reveal_strlit("924a-vesw");
    reveal_strlit("d9np-nk5h");
    reveal_strlit("animal_id");
    reveal_strlit("animal_type");
    reveal_strlit("intake_type");
    reveal_strlit("id");
    reveal_strlit("type");
    reveal_strlit("intake_subtype");
    assert("austin"@[0] == 'a');
    assert("dallas"@[0] == 'd');
    assert("sonoma"@[0] == 's');
    assert("long_beach"@[0] == 'l');
}

/// Every record of a page names the configured source as open data, has no
/// photo and no location, and carries an instant of confirmation; it was first
/// seen when it was last seen.
pub proof fn page_records_come_from_the_source(
    rows: Seq<Json>,
    config: SocrataConfigView,
    stamps: Seq<Stamp>,
)
    ensures
        soda_records(rows, config, stamps).len() <= rows.len(),
        forall|i: int|
            0 <= i < soda_records(rows, config, stamps).len() ==> {
                let rec = #[trigger] soda_records(rows, config, stamps)[i];
                &&& rec.source == (SourceIdView {
                    name: config.name,
                    tos_class: TosClass::OpenData,
                })
                &&& rec.photos.len() == 0
                &&& rec.location is None
                &&& rec.last_confirmed is Some
                &&& rec.first_seen == rec.last_seen
            },
    decreases rows.len(),
{
    if rows.len() > 0 {
        page_records_come_from_the_source(rows.drop_last(), config, stamps);
    }
}

/// A row whose outcome column holds text is of an animal that has left.
pub proof fn outcome_means_departed(row: Json, cm: ColumnMapView)
    requires
        json::opt_cell_of(row, cm.outcome_date) is Some,
        json::opt_cell_of(row, cm.outcome_date)->0.len() > 0,
    ensures
        soda_availability(row, cm) == Availability::Departed,
{
}

/// A delta poll asks for the rows that a full poll asks for and that were updated
/// after the cursor: its filter is that of a full poll with one clause more, which
/// compares `:updated_at` with the quoted cursor and lets exactly the rows of later
/// instants through.
pub proof fn delta_polls_ask_for_later_rows(
    config: SocrataConfigView,
    cursor: Moment,
    row: Moment,
)
    ensures
        exists|clause: Seq<char>| #[trigger]
            soda_clause(config, cursor, clause) && (query::asks_for(
                clause,
                ":updated_at"@,
                seq!['\''] + time::formatted(cursor, "%Y-%m-%dT%H:%M:%S"@) + seq!['\''],
                cursor,
                row,
            ) <==> query::later(row, cursor)),
{
    reveal_strlit(" AND ");
    reveal_strlit(":updated_at > '");
    reveal_strlit(":updated_at");
    reveal_strlit("'");
    let stamp = time::formatted(cursor, "%Y-%m-%dT%H:%M:%S"@);
    let operand = seq!['\''] + stamp + seq!['\''];
    let clause = ":updated_at"@ + seq![' '] + seq!['>'] + seq![' '] + operand;
    query::comparison_reads(":updated_at"@, seq!['>'], operand);
    assert(soda_where(config, Some(cursor)) =~= soda_where(config, None) + seq![
        ' ',
        'A',
        'N',
        'D',
        ' ',
    ] + clause);
    assert(soda_clause(config, cursor, clause));
}

/// Whether a clause is what a delta poll adds to the filter of a full one.
pub open spec fn soda_clause(config: SocrataConfigView, cursor: Moment, clause: Seq<char>) -> bool {
    soda_where(config, Some(cursor)) == soda_where(config, None) + seq![' ', 'A', 'N', 'D', ' ']
        + clause
}

/// A full poll asks for dogs and cats, by the column of the species in upper case.
pub proof fn full_polls_ask_for_dogs_and_cats(config: SocrataConfigView)
    ensures
        soda_where(config, None) == "upper("@ + config.column_map.animal_type
            + ") in ('DOG', 'CAT')"@,
        resource_url(config) == "https://"@ + config.domain + "/resource/"@ + config.dataset_id
            + ".json"@,
{
}

/// A page is asked for by its size, a thousand rows, by where it begins, by the
/// filter and in the order of updates; the token goes along where there is one and
/// the source asks for one. The page behind a page begins a thousand rows later.
pub proof fn pages_are_asked_for_by_place(
    config: SocrataConfigView,
    offset: nat,
    since: Option<Moment>,
    token: Option<Seq<char>>,
)
    ensures
        ({
            let query = soda_query(config, offset, since, token);
            &&& query::param(query, "$limit"@) == Some("1000"@)
            &&& query::param(query, "$offset"@) matches Some(o) && query::is_count(o)
                && query::count_of(o) == offset
            &&& query::param(query, "$where"@) == Some(soda_where(config, since))
            &&& query::param(query, "$order"@) == Some(":updated_at DESC"@)
            &&& query::param(query, "$$app_token"@) == (if config.app_token_env is Some {
                token
            } else {
                None
            })
        }),
        PAGE_SIZE == 1000,
{
    reveal_strlit("$limit");
    reveal_strlit("$offset");
    reveal_strlit("$where");
    reveal_strlit("$order");
    reveal_strlit("$$app_token");
    reveal_strlit("1000");
    assert("$limit"@[1] == 'l' && "$offset"@[1] == 'o' && "$where"@[1] == 'w' && "$order"@[1] == 'o'
        && "$$app_token"@[1] == '$');
    assert("$offset"@.len() == 7 && "$order"@.len() == 6);
    reveal_with_fuel(text::decimal, 5);
    assert(text::decimal(1000) =~= "1000"@);
    query::decimals_read_back(offset);
    reveal_with_fuel(query::param, 7);
}

/// A dog goes by `DOG` or `CANINE` and a cat by `CAT` or `FELINE`, in any case and
/// with any space around; whatever goes by another word is no species, and the word
/// is named.
pub proof fn species_go_by_four_words(s: Seq<char>)
    ensures
        ({
            let word = text::uppercase(text::trimmed(s));
            &&& species_of(s) == Ok::<Species, ConnectorErrorView>(Species::Dog) <==> word == "DOG"@
                || word == "CANINE"@
            &&& species_of(s) == Ok::<Species, ConnectorErrorView>(Species::Cat) <==> word == "CAT"@
                || word == "FELINE"@
            &&& species_of(s) matches Err(e) ==> e == ConnectorErrorView::UnknownSpecies(word)
        }),
{
    reveal_strlit("DOG");
    reveal_strlit("CANINE");
    reveal_strlit("CAT");
    reveal_strlit("FELINE");
    assert("DOG"@[0] == 'D' && "CANINE"@[0] == 'C' && "CAT"@[0] == 'C' && "FELINE"@[0] == 'F');
    assert("CANINE"@.len() == 6 && "CAT"@.len() == 3 && "DOG"@.len() == 3 && "FELINE"@.len() == 6);
}

/// The intake types that words name, in any case and with any space around. A word
/// that names none leaves the type unknown.
pub proof fn intake_types_go_by_their_words(s: Seq<char>)
    ensures
        ({
            let word = text::uppercase(text::trimmed(s));
            &&& soda_intake_type(s) == IntakeType::Stray <==> word == "STRAY"@
            &&& soda_intake_type(s) == IntakeType::OwnerSurrender <==> word == "OWNER SURRENDER"@
                || word == "OWNER_SURRENDER"@
            &&& soda_intake_type(s) == IntakeType::FoundReport <==> word == "FOUND REPORT"@ || word
                == "FOUND_REPORT"@
            &&& soda_intake_type(s) == IntakeType::Transfer <==> word == "TRANSFER"@
            &&& soda_intake_type(s) == IntakeType::Stray || soda_intake_type(s)
                == IntakeType::OwnerSurrender || soda_intake_type(s) == IntakeType::FoundReport
                || soda_intake_type(s) == IntakeType::Transfer || soda_intake_type(s)
                == IntakeType::Unknown
        }),
{
    reveal_strlit("STRAY");
    reveal_strlit("OWNER SURRENDER");
    reveal_strlit("OWNER_SURRENDER");
    reveal_strlit("FOUND REPORT");
    reveal_strlit("FOUND_REPORT");
    reveal_strlit("TRANSFER");
    assert("STRAY"@[0] == 'S' && "OWNER SURRENDER"@[0] == 'O' && "OWNER_SURRENDER"@[0] == 'O'
        && "FOUND REPORT"@[0] == 'F' && "FOUND_REPORT"@[0] == 'F' && "TRANSFER"@[0] == 'T');
}

/// An animal has departed where its outcome column holds some text, or where its
/// kennel status speaks of an adoption, a transfer or a death; otherwise it can be
/// adopted where the status says that it is available or speaks of adopting; and is
/// in custody where neither says anything.
pub proof fn whereabouts_follow_outcome_and_kennel(row: Json, cm: ColumnMapView)
    ensures
        ({
            let left = json::opt_cell_of(row, cm.outcome_date) matches Some(v) && v.len() > 0;
            let kennel = match json::opt_cell_of(row, cm.kennel_status) {
                Some(v) => text::uppercase(v),
                None => Seq::empty(),
            };
            let gone = text::has(kennel, "ADOPTED"@) || text::has(kennel, "TRANSFERRED"@)
                || text::has(kennel, "DIED"@);
            let offered = text::has(kennel, "AVAILABLE"@) || text::has(kennel, "ADOPT"@);
            &&& soda_availability(row, cm) == Availability::Departed <==> left || gone
            &&& soda_availability(row, cm) == Availability::Adoptable <==> !left && !gone && offered
            &&& soda_availability(row, cm) == Availability::InCustody <==> !left && !gone
                && !offered
        }),
{
    reveal_strlit("ADOPTED");
    reveal_strlit("TRANSFERRED");
    reveal_strlit("DIED");
    reveal_strlit("AVAILABLE");
    reveal_strlit("ADOPT");
    let none = Seq::<char>::empty();
    assert(!text::has(none, "ADOPTED"@) && !text::has(none, "TRANSFERRED"@) && !text::has(
        none,
        "DIED"@,
    ) && !text::has(none, "AVAILABLE"@) && !text::has(none, "ADOPT"@));
}

/// A text that denies a chip says that a scan found none; one that only affirms it
/// says that a scan found one; any other says nothing.
pub proof fn chips_are_denied_before_affirmed(s: Seq<char>)
    ensures
        ({
            let v = text::uppercase(text::trimmed(s));
            let yes = text::has(v, "YES"@) || text::has(v, "SCANNED"@);
            &&& chip_status_of(s) == ChipStatusView::ScanNoChip <==> text::has(v, "NO"@)
            &&& chip_status_of(s) == (ChipStatusView::Scanned { chip: None }) <==> !text::has(
                v,
                "NO"@,
            ) && yes
            &&& chip_status_of(s) == ChipStatusView::Unknown <==> !text::has(v, "NO"@) && !yes
        }),
{
    reveal_strlit("NO");
    reveal_strlit("NOT");
    reveal_strlit("NONE");
    let v = text::uppercase(text::trimmed(s));
    assert("NOT"@.subrange(0, 2) =~= "NO"@);
    assert("NONE"@.subrange(0, 2) =~= "NO"@);
    assert(text::occurs_at("NOT"@, "NO"@, 0));
    assert(text::occurs_at("NONE"@, "NO"@, 0));
    text::parts_of_parts(v, "NOT"@, "NO"@);
    text::parts_of_parts(v, "NONE"@, "NO"@);
}

/// A date is read as RFC 3339 where it is that, with a space for the `T` or
/// without; else as a date and time in UTC, with or without a fraction; else as the
/// start of a day.
pub proof fn dates_are_read_by_the_first_form_that_fits(s: Seq<char>)
    ensures
        ({
            let t = text::replaced_first(s, ' ', 'T');
            &&& time::rfc3339_instant(t) matches Ok(m) ==> soda_instant(s) == Some(m)
            &&& time::rfc3339_instant(t) is Err ==> (match time::formatted_instant(
                t,
                "%Y-%m-%dT%H:%M:%S%.f"@,
            ) {
                Some(m) => soda_instant(s) == Some(m),
                None => match time::formatted_instant(t, "%Y-%m-%dT%H:%M:%S"@) {
                    Some(m) => soda_instant(s) == Some(m),
                    None => soda_instant(s) == time::formatted_day(s, "%Y-%m-%d"@),
                },
            })
        }),
{
}

/// A row becomes the record of its animal, each part from the column that the
/// source maps to it. It was seen when it came in, where that is known, and else
/// now; it is confirmed now; and it has no photo and no location of its own.
pub proof fn rows_become_records(row: Json, config: SocrataConfigView, id: u128, now: Moment)
    ensures
        ({
            let cm = config.column_map;
            match soda_record(row, config, id, now) {
                Err(e) => {
                    let kind = match json::cell_of(row, cm.animal_type) {
                        Some(v) => v,
                        None => "unknown"@,
                    };
                    species_of(kind) == Err::<Species, ConnectorErrorView>(e)
                },
                Ok(rec) => {
                    &&& rec.canonical_id == id
                    &&& rec.source.name == config.name
                    &&& rec.source.tos_class == TosClass::OpenData
                    &&& rec.source_animal_id == json::cell_of(row, cm.animal_id)
                    &&& json::cell_of(row, cm.animal_type) matches Some(v) && species_of(v) == Ok::<
                        Species,
                        ConnectorErrorView,
                    >(rec.species)
                    &&& rec.breed_primary == json::opt_cell_of(row, cm.breed)
                    &&& rec.colors == (match json::opt_cell_of(row, cm.color) {
                        Some(v) => seq![v],
                        None => Seq::empty(),
                    })
                    &&& rec.intake_type == (match json::cell_of(row, cm.intake_type) {
                        Some(v) => soda_intake_type(v),
                        None => IntakeType::Unknown,
                    })
                    &&& rec.availability == soda_availability(row, cm)
                    &&& rec.chip_status == (match json::opt_cell_of(row, cm.chip_status) {
                        Some(v) => chip_status_of(v),
                        None => ChipStatusView::Unknown,
                    })
                    &&& rec.found_location_text == json::opt_cell_of(row, cm.found_location)
                    &&& rec.intake_date == (match json::opt_cell_of(row, cm.intake_date) {
                        Some(v) => soda_instant(v),
                        None => None,
                    })
                    &&& rec.outcome_date == (match json::opt_cell_of(row, cm.outcome_date) {
                        Some(v) => soda_instant(v),
                        None => None,
                    })
                    &&& rec.intake_date matches Some(m) ==> rec.first_seen == m && rec.last_seen == m
                    &&& rec.intake_date is None ==> rec.first_seen == now && rec.last_seen == now
                    &&& rec.last_confirmed == Some(now)
                    &&& rec.location is None
                    &&& rec.photos.len() == 0
                    &&& rec.breed_secondary is None
                    &&& rec.sex is None
                    &&& rec.age_bucket is None
                    &&& rec.size is None
                    &&& rec.markings_text is None
                    &&& rec.secondary_provenances.len() == 0
                },
            }
        }),
{
    lemma_unknown_words();
}

/// A row without a species names none, and one without an intake type has an
/// unknown one.
proof fn lemma_unknown_words()
    ensures
        species_of("unknown"@) is Err,
        soda_intake_type(""@) == IntakeType::Unknown,
{
    reveal_strlit("unknown");
    reveal_strlit("");
    text::trimming_keeps_the_rest("unknown"@);
    text::trimming_keeps_the_rest(""@);
    species_go_by_four_words("unknown"@);
    intake_types_go_by_their_words(""@);
    assert(text::uppercase("unknown"@).len() == 7);
    assert(text::uppercase(""@).len() == 0);
    reveal_strlit("DOG");
    reveal_strlit("CANINE");
    reveal_strlit("CAT");
    reveal_strlit("FELINE");
    reveal_strlit("STRAY");
    reveal_strlit("OWNER SURRENDER");
    reveal_strlit("OWNER_SURRENDER");
    reveal_strlit("FOUND REPORT");
    reveal_strlit("FOUND_REPORT");
    reveal_strlit("TRANSFER");
}

/// A page gives one record for each row that can be normalized, in the order of the
/// rows, and none for the others.
pub proof fn one_more_row_is_one_more_record(
    rows: Seq<Json>,
    row: Json,
    config: SocrataConfigView,
    stamps: Seq<Stamp>,
)
    ensures
        soda_records(rows.push(row), config, stamps) == (match soda_record(
            row,
            config,
            stamps[rows.len() as int].id,
            stamps[rows.len() as int].now@,
        ) {
            Ok(rec) => soda_records(rows, config, stamps).push(rec),
            Err(_) => soda_records(rows, config, stamps),
        }),
        soda_records(Seq::empty(), config, stamps).len() == 0,
{
    assert(rows.push(row).drop_last() =~= rows);
}

/// The built-in sources are the four cities' own datasets, each under its name.
pub proof fn built_ins_are_the_four_cities()
    ensures
        resource_url(austin_config()) == "https://data.austintexas.gov/resource/fdzn-9yqv.json"@,
        resource_url(dallas_config()) == "https://www.dallasopendata.com/resource/qgg6-h4bd.json"@,
        resource_url(sonoma_config())
            == "https://data.sonomacounty.ca.gov/resource/924a-vesw.json"@,
        resource_url(long_beach_config()) == "https://data.longbeach.gov/resource/d9np-nk5h.json"@,
        austin_config().name == "austin"@,
        dallas_config().name == "dallas"@,
        sonoma_config().name == "sonoma"@,
        long_beach_config().name == "long_beach"@,
        austin_config().column_map.intake_date == Some("datetime"@),
        austin_config().column_map.outcome_date is None,
        dallas_config().column_map.outcome_date == Some("outcome_datetime"@),
        dallas_config().column_map.kennel_status == Some("kennel_status"@),
        sonoma_config().column_map.intake_type == "intake_subtype"@,
        sonoma_config().column_map.animal_id == "id"@,
        sonoma_config().column_map.animal_type == "type"@,
        sonoma_config().column_map.found_location == Some("location_found"@),
        long_beach_config().column_map.name == Some("animal_name"@),
        long_beach_config().column_map.outcome_date == Some("outcome_date"@),
{
    reveal_strlit("https://");
    reveal_strlit("/resource/");
    reveal_strlit(".json");
    reveal_strlit("data.austintexas.gov");
    reveal_strlit("fdzn-9yqv");
    reveal_strlit("https://data.austintexas.gov/resource/fdzn-9yqv.json");
    assert(resource_url(austin_config())
        =~= "https://data.austintexas.gov/resource/fdzn-9yqv.json"@);
    reveal_strlit("www.dallasopendata.com");
    reveal_strlit("qgg6-h4bd");
    reveal_strlit("https://www.dallasopendata.com/resource/qgg6-h4bd.json");
    assert(resource_url(dallas_config())
        =~= "https://www.dallasopendata.com/resource/qgg6-h4bd.json"@);
    reveal_strlit("data.sonomacounty.ca.gov");
    reveal_strlit("924a-vesw");
    reveal_strlit("https://data.sonomacounty.ca.gov/resource/924a-vesw.json");
    assert(resource_url(sonoma_config())
        =~= "https://data.sonomacounty.ca.gov/resource/924a-vesw.json"@);
    reveal_strlit("data.longbeach.gov");
    reveal_strlit("d9np-nk5h");
    reveal_strlit("https://data.longbeach.gov/resource/d9np-nk5h.json");
    assert(resource_url(long_beach_config())
        =~= "https://data.longbeach.gov/resource/d9np-nk5h.json"@);
}

/// A configuration is valid exactly where it has a name, a domain, a dataset and the
/// three required columns; the complaint about any other names the source, where it
/// has a name, and the first of these that is empty.
pub proof fn configurations_need_six_fields(cfg: SocrataConfigView)
    ensures
        ({
            let m = cfg.column_map;
            let fault = config_fault(cfg);
            let says = |label: Seq<char>, field: Seq<char>|
                fault == Some(
                    ConnectorErrorView::Config(
                        "source "@ + label + ": required field '"@ + field + "' is empty"@,
                    ),
                );
            let to_name = cfg.name.len() > 0;
            let to_domain = to_name && cfg.domain.len() > 0;
            let to_dataset = to_domain && cfg.dataset_id.len() > 0;
            let to_id = to_dataset && m.animal_id.len() > 0;
            let to_type = to_id && m.animal_type.len() > 0;
            &&& fault is None <==> to_type && m.intake_type.len() > 0
            &&& !to_name ==> says("<unnamed>"@, "name"@)
            &&& to_name && !to_domain ==> says(cfg.name, "domain"@)
            &&& to_domain && !to_dataset ==> says(cfg.name, "dataset_id"@)
            &&& to_dataset && !to_id ==> says(cfg.name, "column_map.animal_id"@)
            &&& to_id && !to_type ==> says(cfg.name, "column_map.animal_type"@)
            &&& to_type && m.intake_type.len() == 0 ==> says(cfg.name, "column_map.intake_type"@)
        }),
{
}

} // verus!
