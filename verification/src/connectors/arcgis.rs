//! ArcGIS REST Feature Service connector.
//!
//! Polls an Esri ArcGIS Feature Service layer in GeoJSON for stray-bearing
//! animal-intake records. A delta poll asks for features edited after the
//! cursor's instant. Paging goes on while the service says that it held
//! features back. Only records whose intake column holds a stray word survive.

use serde_json::Value;
use url::Url;
use vstd::prelude::*;

use crate::catalog::{ArcGisConfig, ArcGisConfigView};
use crate::connectors::socrata;
use crate::connectors::socrata::{ColumnMapView, SocrataColumnMap};
use crate::error;
use crate::error::{ConnectorError, ConnectorErrorView};
use crate::json;
use crate::json::Json;
use crate::outcome;
use crate::query;
use crate::poll;
use crate::poll::PollView;
use crate::schema::{
    Availability, ChipStatus, ChipStatusView, Cursor, IntakeType, PetRecord, PetRecordView,
    Provenance, ProvenanceView, SourceId, SourceIdView, Species, Stamp, TosClass,
};
use crate::span;
use crate::stray;
use crate::text;
use crate::time;
use crate::time::{Moment, Timestamp};
use crate::web;

pub use crate::stray::{is_stray_value, STRAY_VALUES};

verus! {

/// Maximum records per ArcGIS query page.
pub const PAGE_SIZE: u64 = 1000;

/// The pause between requests to the source, in milliseconds.
pub const MIN_INTERVAL_MS: u64 = 500;

// ---------------------------------------------------------------------------
// Normalization
// ---------------------------------------------------------------------------

/// The species that a word names, in any case and with space around it.
pub fn parse_arcgis_species(s: &str) -> (res: Result<Species, ConnectorError>)
    ensures
        match res {
            Ok(v) => socrata::species_of(s@) == Ok::<Species, ConnectorErrorView>(v),
            Err(e) => socrata::species_of(s@) == Err::<Species, ConnectorErrorView>(e.deep_view()),
        },
{
    socrata::parse_socrata_species(s)
}

/// The intake type that a word names, in any case and with space around it.
pub open spec fn arcgis_intake_type(s: Seq<char>) -> IntakeType {
    let word = text::uppercase(text::trimmed(s));
    if word == "STRAY"@ {
        IntakeType::Stray
    } else if word == "FOUND"@ || word == "FOUND REPORT"@ || word == "FOUND_REPORT"@ {
        IntakeType::FoundReport
    } else if word == "STRAY INCOMING"@ || word == "FIELD"@ || word == "CONFISCATED"@ || word
        == "WILDLIFE"@ {
        IntakeType::Stray
    } else {
        IntakeType::Unknown
    }
}

/// Maps ArcGIS intake strings to [`IntakeType`].
pub fn parse_arcgis_intake_type(s: &str) -> (res: IntakeType)
    ensures
        res == arcgis_intake_type(s@),
{
    let word = text::upper(s.trim());
    if text::same(&word, "STRAY") {
        IntakeType::Stray
    } else if text::same(&word, "FOUND") || text::same(&word, "FOUND REPORT") || text::same(
        &word,
        "FOUND_REPORT",
    ) {
        IntakeType::FoundReport
    } else if text::same(&word, "STRAY INCOMING") || text::same(&word, "FIELD") || text::same(
        &word,
        "CONFISCATED",
    ) || text::same(&word, "WILDLIFE") {
        IntakeType::Stray
    } else {
        IntakeType::Unknown
    }
}

/// What a chip column's word says.
pub open spec fn arcgis_chip_status(s: Seq<char>) -> ChipStatusView {
    let word = text::uppercase(text::trimmed(s));
    if word == "YES"@ || word == "SCANNED"@ || word == "MICROCHIPPED"@ {
        ChipStatusView::Scanned { chip: None }
    } else if word == "NO"@ || word == "NONE"@ {
        ChipStatusView::NotScanned
    } else {
        ChipStatusView::Unknown
    }
}

/// What a chip column's word says.
pub fn parse_arcgis_chip_status(s: &str) -> (res: ChipStatus)
    ensures
        res.deep_view() == arcgis_chip_status(s@),
{
    let word = text::upper(s.trim());
    if text::same(&word, "YES") || text::same(&word, "SCANNED") || text::same(
        &word,
        "MICROCHIPPED",
    ) {
        ChipStatus::Scanned { chip: None }
    } else if text::same(&word, "NO") || text::same(&word, "NONE") {
        ChipStatus::NotScanned
    } else {
        ChipStatus::Unknown
    }
}

/// Whether an outcome column holds an outcome: a positive epoch in milliseconds
/// or some text.
pub open spec fn is_outcome(v: Json) -> bool {
    match v {
        Json::Int(n) => 0 < n <= i64::MAX,
        Json::Text(s) => s.len() > 0,
        _ => false,
    }
}

/// An animal with an outcome has left; one whose kennel status speaks of
/// adoption can be adopted; any other is in custody.
pub open spec fn arcgis_availability(props: Json, cm: ColumnMapView) -> Availability {
    let outcome = match cm.outcome_date {
        Some(col) => json::member(props, col),
        None => None,
    };
    let kennel = json::opt_cell_of(props, cm.kennel_status);
    if outcome is Some && is_outcome(outcome->0) {
        Availability::Departed
    } else if kennel is Some && text::has(
        text::uppercase(text::trimmed(kennel->0)),
        "ADOPT"@,
    ) {
        Availability::Adoptable
    } else {
        Availability::InCustody
    }
}

/// Determines availability from the outcome-date and kennel-status columns.
pub fn determine_arcgis_availability(props: &Value, cm: &SocrataColumnMap) -> (res: Availability)
    ensures
        res == arcgis_availability(json::contents(*props), cm.deep_view()),
{
    if let Some(col) = &cm.outcome_date {
        if let Some(v) = json::get(props, col) {
            if let Some(ms) = v.as_i64() {
                if ms > 0 {
                    return Availability::Departed;
                }
            }
            if let Some(s) = v.as_str() {
                if !s.is_empty() {
                    return Availability::Departed;
                }
            }
        }
    }
    if let Some(v) = json::opt_cell(props, &cm.kennel_status) {
        let v = text::upper(v.trim());
        if text::contains(&v, "ADOPT") {
            return Availability::Adoptable;
        }
    }
    Availability::InCustody
}

/// The instant that an ArcGIS date text names.
pub open spec fn arcgis_instant(s: Seq<char>) -> Option<Moment> {
    if time::rfc3339_instant(s) is Ok {
        Some(time::rfc3339_instant(s)->Ok_0)
    } else if time::formatted_instant(s, "%Y-%m-%dT%H:%M:%S%.f"@) is Some {
        time::formatted_instant(s, "%Y-%m-%dT%H:%M:%S%.f"@)
    } else if time::formatted_instant(s, "%Y-%m-%d %H:%M:%S"@) is Some {
        time::formatted_instant(s, "%Y-%m-%d %H:%M:%S"@)
    } else {
        time::formatted_instant(s, "%Y/%m/%d %H:%M:%S"@)
    }
}

/// Reads an ArcGIS date text.
pub fn parse_arcgis_datetime(s: &str) -> (res: Option<Timestamp>)
    ensures
        res.deep_view() == arcgis_instant(s@),
{
    if let Ok(ts) = time::read_rfc3339(s) {
        return Some(ts);
    }
    if let Some(ts) = time::read_datetime(s, "%Y-%m-%dT%H:%M:%S%.f") {
        return Some(ts);
    }
    if let Some(ts) = time::read_datetime(s, "%Y-%m-%d %H:%M:%S") {
        return Some(ts);
    }
    time::read_datetime(s, "%Y/%m/%d %H:%M:%S")
}

/// The instant in a date column: an epoch in milliseconds or a date text.
pub open spec fn arcgis_date(props: Json, col: Option<Seq<char>>) -> Option<Moment> {
    match col {
        Some(c) => match json::member(props, c) {
            Some(v) => match v {
                Json::Int(n) => if i64::MIN <= n <= i64::MAX {
                    time::millis_instant(n)
                } else {
                    None
                },
                Json::Text(s) => arcgis_instant(s),
                _ => None,
            },
            None => None,
        },
        None => None,
    }
}

fn date_cell(props: &Value, col: &Option<String>) -> (res: Option<Timestamp>)
    ensures
        res.deep_view() == arcgis_date(json::contents(*props), col.deep_view()),
{
    match col {
        Some(c) => match json::get(props, c) {
            Some(v) => match v.as_i64() {
                Some(ms) => time::from_millis(ms),
                None => match v.as_str() {
                    Some(s) => parse_arcgis_datetime(s),
                    None => None,
                },
            },
            None => None,
        },
        None => None,
    }
}

/// The record of a feature's properties that were read at `now`; nothing where
/// the intake is not of a stray, and an error where it is but the species is
/// not known.
pub open spec fn arcgis_record(
    props: Json,
    config: ArcGisConfigView,
    id: u128,
    now: Moment,
) -> Result<Option<PetRecordView>, ConnectorErrorView> {
    let cm = config.column_map;
    let intake = socrata::or_else(json::cell_of(props, cm.intake_type), ""@);
    let intake_date = arcgis_date(props, cm.intake_date);
    let seen = if intake_date is Some {
        intake_date->0
    } else {
        now
    };
    if !stray::is_stray(intake) {
        Ok(None)
    } else {
        match socrata::species_of(
            socrata::or_else(json::cell_of(props, cm.animal_type), "unknown"@),
        ) {
            Err(e) => Err(e),
            Ok(species) => Ok(
                Some(
                    PetRecordView {
                        canonical_id: id,
                        source: SourceIdView { name: config.name, tos_class: TosClass::OpenData },
                        source_animal_id: json::cell_of(props, cm.animal_id),
                        species,
                        breed_primary: json::opt_cell_of(props, cm.breed),
                        breed_secondary: None,
                        sex: None,
                        age_bucket: None,
                        size: None,
                        colors: socrata::at_most_one(json::opt_cell_of(props, cm.color)),
                        markings_text: None,
                        intake_type: arcgis_intake_type(intake),
                        availability: arcgis_availability(props, cm),
                        chip_status: match json::opt_cell_of(props, cm.chip_status) {
                            Some(s) => arcgis_chip_status(s),
                            None => ChipStatusView::Unknown,
                        },
                        location: None,
                        found_location_text: json::opt_cell_of(props, cm.found_location),
                        photos: Seq::empty(),
                        first_seen: seen,
                        last_seen: seen,
                        last_confirmed: Some(now),
                        intake_date,
                        outcome_date: arcgis_date(props, cm.outcome_date),
                        secondary_provenances: Seq::empty(),
                    },
                ),
            ),
        }
    }
}

/// Normalizes the properties of one feature that was read at the stamp's
/// instant.
pub fn normalize_arcgis_record_at(props: &Value, config: &ArcGisConfig, stamp: &Stamp) -> (res:
    Result<Option<PetRecord>, ConnectorError>)
    ensures
        outcome::of(res) == arcgis_record(
            json::contents(*props),
            config.deep_view(),
            stamp.id,
            stamp.now@,
        ),
{
    let cm = &config.column_map;
    let intake = match json::cell(props, &cm.intake_type) {
        Some(s) => s,
        None => "",
    };
    if !stray::is_stray_value(intake) {
        return Ok(None);
    }
    let intake_type = parse_arcgis_intake_type(intake);
    let animal_id = match json::cell(props, &cm.animal_id) {
        Some(s) => Some(s.to_owned()),
        None => None,
    };
    let animal_type = match json::cell(props, &cm.animal_type) {
        Some(s) => s,
        None => "unknown",
    };
    let species = match parse_arcgis_species(animal_type) {
        Ok(v) => v,
        Err(e) => return Err(e),
    };
    let availability = determine_arcgis_availability(props, cm);
    let chip_status = match json::opt_cell(props, &cm.chip_status) {
        Some(s) => parse_arcgis_chip_status(s),
        None => ChipStatus::Unknown,
    };
    let intake_date = date_cell(props, &cm.intake_date);
    let outcome_date = date_cell(props, &cm.outcome_date);
    let seen = match intake_date {
        Some(ts) => ts,
        None => stamp.now,
    };
    let rec = PetRecord {
        canonical_id: stamp.id,
        source: SourceId::new(&config.name, TosClass::OpenData),
        source_animal_id: animal_id,
        species,
        breed_primary: json::opt_text(props, &cm.breed),
        breed_secondary: None,
        sex: None,
        age_bucket: None,
        size: None,
        colors: socrata::one_or_none(json::opt_text(props, &cm.color)),
        markings_text: None,
        intake_type,
        availability,
        chip_status,
        location: None,
        found_location_text: json::opt_text(props, &cm.found_location),
        photos: Vec::new(),
        first_seen: seen,
        last_seen: seen,
        last_confirmed: Some(stamp.now),
        intake_date,
        outcome_date,
        secondary_provenances: Vec::new(),
    };
    proof {
        assert(rec.photos.deep_view() =~= Seq::empty());
        assert(rec.secondary_provenances.deep_view() =~= Seq::empty());
    }
    Ok(Some(rec))
}

/// Normalizes the properties of one feature, with a fresh identifier and the
/// current instant.
pub fn normalize_arcgis_record(props: &Value, config: &ArcGisConfig) -> (res: Result<
    Option<PetRecord>,
    ConnectorError,
>)
    ensures
        exists|id: u128, now: Moment|
            time::clock_shows(now) && outcome::of(res) == #[trigger] arcgis_record(
                json::contents(*props),
                config.deep_view(),
                id,
                now,
            ),
{
    let stamp = Stamp::fresh();
    normalize_arcgis_record_at(props, config, &stamp)
}

// ---------------------------------------------------------------------------
// Polling
// ---------------------------------------------------------------------------

/// Everything; in a delta poll, what was edited after an instant.
pub open spec fn arcgis_where(since: Option<Moment>) -> Seq<char> {
    match since {
        Some(m) => "EditDate > "@ + text::signed_decimal(m.secs * 1000 + m.nanos / 1_000_000),
        None => "1=1"@,
    }
}

/// The query of one page.
pub open spec fn arcgis_query(offset: nat, since: Option<Moment>) -> Seq<(Seq<char>, Seq<char>)> {
    seq![
        ("where"@, arcgis_where(since)),
        ("outFields"@, "*"@),
        ("f"@, "geojson"@),
        ("resultRecordCount"@, text::decimal(PAGE_SIZE as nat)),
        ("resultOffset"@, text::decimal(offset)),
    ]
}

/// Where records of a layer come from.
pub open spec fn arcgis_provenance(config: ArcGisConfigView, now: Moment) -> ProvenanceView {
    ProvenanceView {
        source: SourceIdView { name: config.name, tos_class: TosClass::OpenData },
        fetched_at: now,
        source_url: Some(config.service_url),
        source_etag: None,
    }
}

/// The features of a page, where it is a feature collection.
pub open spec fn features_of(body: Json) -> Option<Seq<Json>> {
    match json::member(body, "features"@) {
        Some(v) => match v {
            Json::List(items) => Some(items),
            _ => None,
        },
        None => None,
    }
}

/// The properties of a feature; `null` where it has none.
pub open spec fn properties_of(feature: Json) -> Json {
    match json::member(feature, "properties"@) {
        Some(v) => v,
        None => Json::Null,
    }
}

/// Whether a page says that features were held back.
pub open spec fn held_back(body: Json) -> bool {
    json::member(body, "exceededTransferLimit"@) == Some(Json::Bool(true))
}

/// The records of the features that are of strays and can be normalized, in
/// order; the others are skipped.
pub open spec fn arcgis_records(
    features: Seq<Json>,
    config: ArcGisConfigView,
    stamps: Seq<Stamp>,
) -> Seq<PetRecordView>
    decreases features.len(),
{
    if features.len() == 0 {
        Seq::empty()
    } else {
        let before = arcgis_records(features.drop_last(), config, stamps);
        let stamp = stamps[features.len() - 1];
        match arcgis_record(properties_of(features.last()), config, stamp.id, stamp.now@) {
            Ok(Some(rec)) => before.push(rec),
            _ => before,
        }
    }
}

/// Connector for a single ArcGIS Feature Service layer.
pub struct ArcGisConnector {
    /// The layer to poll.
    pub config: ArcGisConfig,
}

impl ArcGisConnector {
    /// A connector for one layer.
    pub fn new(config: ArcGisConfig) -> (res: Self)
        ensures
            res.config == config,
    {
        ArcGisConnector { config }
    }

    /// Builds the ArcGIS query URL for an offset and an optional instant.
    pub fn build_url(&self, offset: u64, since: Option<&Timestamp>) -> (res: Result<
        Url,
        ConnectorError,
    >)
        ensures
            error::url_outcome(res) == error::url_result(
                web::built(
                    self.config.service_url@ + "/query"@,
                    arcgis_query(offset as nat, since.deep_view()),
                ),
            ),
    {
        let filter = match since {
            Some(ts) => "EditDate > ".to_owned().concat(&text::write_signed(time::to_millis(ts))),
            None => "1=1".to_owned(),
        };
        let mut query: Vec<(String, String)> = Vec::new();
        query.push(web::pair("where", filter));
        query.push(web::pair("outFields", "*".to_owned()));
        query.push(web::pair("f", "geojson".to_owned()));
        query.push(web::pair("resultRecordCount", text::write_decimal(PAGE_SIZE)));
        query.push(web::pair("resultOffset", text::write_decimal(offset)));
        proof {
            assert(web::pairs_of(query@) =~= arcgis_query(offset as nat, since.deep_view()));
        }
        let base = self.config.service_url.clone().concat("/query");
        error::url_or_error(web::build(&base, &query))
    }

    /// Where records come from that were fetched at `now`.
    pub fn provenance_at(&self, now: Timestamp) -> (res: Provenance)
        ensures
            res.deep_view() == arcgis_provenance(self.config.deep_view(), now@),
    {
        Provenance {
            source: SourceId::new(&self.config.name, TosClass::OpenData),
            fetched_at: now,
            source_url: Some(self.config.service_url.clone()),
            source_etag: None,
        }
    }

    /// Where records come from that are fetched now.
    pub fn provenance(&self) -> (res: Provenance)
        ensures
            res.deep_view() == arcgis_provenance(self.config.deep_view(), res.fetched_at@),
            time::clock_shows(res.fetched_at@),
    {
        self.provenance_at(time::now())
    }

    /// How often to poll: every four hours.
    pub fn cadence_hint(&self) -> (res: std::time::Duration)
        ensures
            span::nanos_of(res) == 4 * 3600 * 1_000_000_000,
    {
        std::time::Duration::from_secs(4 * 3600)
    }

    /// Begins a poll.
    pub fn start_poll(&self, since: &Option<Cursor>) -> (res: ArcGisPoll)
        ensures
            res@ == poll::begun(Cursor::instant(*since)),
    {
        let res = ArcGisPoll {
            since: Cursor::since(since),
            offset: 0,
            records: Vec::new(),
            done: false,
        };
        assert(res.records.deep_view() =~= Seq::empty());
        res
    }
}

/// A poll under way: what is still to be fetched and what has been gathered.
pub struct ArcGisPoll {
    /// Only features edited after this instant are asked for.
    pub since: Option<Timestamp>,
    /// Where the next page begins.
    pub offset: u64,
    /// The records so far.
    pub records: Vec<PetRecord>,
    /// Whether the last page has been read.
    pub done: bool,
}

impl View for ArcGisPoll {
    type V = PollView;

    open spec fn view(&self) -> PollView {
        PollView {
            since: self.since.deep_view(),
            offset: self.offset as nat,
            records: self.records.deep_view(),
            done: self.done,
        }
    }
}

impl ArcGisPoll {
    /// The URL of the next page.
    pub fn next_url(&self, connector: &ArcGisConnector) -> (res: Result<Url, ConnectorError>)
        ensures
            error::url_outcome(res) == error::url_result(
                web::built(
                    connector.config.service_url@ + "/query"@,
                    arcgis_query(self.offset as nat, self.since.deep_view()),
                ),
            ),
    {
        connector.build_url(self.offset, self.since.as_ref())
    }

    /// Takes note of a reply that says nothing has changed: the poll is over.
    pub fn not_modified(&mut self)
        ensures
            final(self)@ == old(self)@.unchanged(),
            final(self).records == old(self).records,
    {
        self.done = true;
    }

    /// How many features a page holds: as many stamps are needed to take it in.
    pub fn feature_count(body: &Value) -> (res: usize)
        ensures
            res == (match features_of(json::contents(*body)) {
                Some(items) => items.len(),
                None => 0,
            }),
    {
        match json::get(body, "features") {
            Some(v) => match v.as_array() {
                Some(items) => items.len(),
                None => 0,
            },
            None => 0,
        }
    }

    /// Takes in one page: the records of the strays on it are kept. The poll goes
    /// on with the next page as long as the service says that it held features
    /// back, however few the page holds. A page that is no feature collection is
    /// the last.
    pub fn absorb(&mut self, body: &Value, config: &ArcGisConfig, stamps: &Vec<Stamp>)
        requires
            old(self).offset + PAGE_SIZE <= u64::MAX,
            features_of(json::contents(*body)) matches Some(items) ==> stamps.len() == items.len(),
        ensures
            final(self).since == old(self).since,
            match features_of(json::contents(*body)) {
                None => {
                    &&& final(self).done
                    &&& final(self).records == old(self).records
                    &&& final(self).offset == old(self).offset
                },
                Some(items) => {
                    &&& final(self).records.deep_view() == old(self).records.deep_view()
                        + arcgis_records(items, config.deep_view(), stamps@)
                    &&& final(self).done == !held_back(json::contents(*body))
                    &&& final(self).offset == (if final(self).done {
                        old(self).offset as int
                    } else {
                        old(self).offset + PAGE_SIZE
                    })
                },
            },
    {
        let features = match json::get(body, "features") {
            Some(v) => match v.as_array() {
                Some(items) => items,
                None => {
                    self.done = true;
                    return ;
                },
            },
            None => {
                self.done = true;
                return ;
            },
        };
        let ghost all = json::all_contents(features@);
        let ghost before = self.records.deep_view();
        let null = json::null();
        let mut i: usize = 0;
        while i < features.len()
            invariant
                i <= features.len(),
                stamps.len() == features.len(),
                all == json::all_contents(features@),
                json::contents(null) == Json::Null,
                self.offset == old(self).offset,
                self.since == old(self).since,
                before == old(self).records.deep_view(),
                self.records.deep_view() =~= before + arcgis_records(
                    all.take(i as int),
                    config.deep_view(),
                    stamps@,
                ),
            decreases features.len() - i,
        {
            proof {
                assert(all.take(i + 1).drop_last() == all.take(i as int));
                assert(all.take(i + 1).last() == json::contents(features@[i as int]));
            }
            let props = match json::get(&features[i], "properties") {
                Some(p) => p,
                None => &null,
            };
            match normalize_arcgis_record_at(props, config, &stamps[i]) {
                Ok(Some(rec)) => {
                    let ghost sofar = self.records.deep_view();
                    self.records.push(rec);
                    proof {
                        assert(self.records.deep_view() =~= sofar.push(rec.deep_view()));
                    }
                },
                Ok(None) => {},
                Err(_) => {},
            }
            i += 1;
        }
        proof {
            assert(all.take(features.len() as int) == all);
        }
        let exceeded = match json::get(body, "exceededTransferLimit") {
            Some(v) => match v.as_bool() {
                Some(b) => b,
                None => false,
            },
            None => false,
        };
        self.done = !exceeded;
        if exceeded {
            self.offset = self.offset + PAGE_SIZE;
        }
    }
}

// ---------------------------------------------------------------------------
// Laws
// ---------------------------------------------------------------------------

/// Whether a feature's intake column, if it has one, holds a stray word.
pub open spec fn is_stray_feature(feature: Json, cm: ColumnMapView) -> bool {
    stray::is_stray(
        socrata::or_else(json::cell_of(properties_of(feature), cm.intake_type), ""@),
    )
}

/// Only features of strays survive a page, each at most once and in order, and
/// they name the configured source as open data and carry no photo.
pub proof fn only_strays_survive(
    features: Seq<Json>,
    config: ArcGisConfigView,
    stamps: Seq<Stamp>,
)
    ensures
        arcgis_records(features, config, stamps).len() <= features.filter(
            |f: Json| is_stray_feature(f, config.column_map),
        ).len(),
        forall|i: int|
            0 <= i < arcgis_records(features, config, stamps).len() ==> {
                let rec = #[trigger] arcgis_records(features, config, stamps)[i];
                &&& rec.source == (SourceIdView {
                    name: config.name,
                    tos_class: TosClass::OpenData,
                })
                &&& rec.photos.len() == 0
                &&& rec.location is None
                &&& rec.last_confirmed is Some
            },
    decreases features.len(),
{
    reveal(Seq::filter);
    if features.len() > 0 {
        only_strays_survive(features.drop_last(), config, stamps);
    }
}

/// A delta poll asks for what was edited after the cursor: its filter compares
/// `EditDate` with the cursor in whole milliseconds since the epoch and lets
/// exactly the later ones through. A full poll asks for everything.
pub proof fn delta_polls_ask_for_later_edits(cursor: Moment)
    ensures
        ({
            let filter = arcgis_where(Some(cursor));
            &&& query::comparison_of(filter) matches Some(c) && {
                let edge = query::written(c.operand);
                &&& c.field == "EditDate"@
                &&& c.operator == seq!['>']
                &&& edge * 1_000_000 <= cursor.secs * 1_000_000_000 + cursor.nanos
                &&& cursor.secs * 1_000_000_000 + cursor.nanos < (edge + 1) * 1_000_000
            }
            &&& arcgis_where(None) == "1=1"@
        }),
{
    reveal_strlit("EditDate > ");
    reveal_strlit("EditDate");
    let millis = cursor.secs * 1000 + cursor.nanos / 1_000_000;
    let operand = text::signed_decimal(millis);
    query::comparison_reads("EditDate"@, seq!['>'], operand);
    assert(arcgis_where(Some(cursor)) =~= "EditDate"@ + seq![' '] + seq!['>'] + seq![' ']
        + operand);
    query::signed_decimals_read_back(millis);
}

/// A page is asked for by its size, a thousand features, and by where it begins,
/// with all fields and as GeoJSON. The page behind a page begins a thousand
/// features later.
pub proof fn pages_are_asked_for_by_place(offset: nat, since: Option<Moment>)
    ensures
        ({
            let query = arcgis_query(offset, since);
            &&& query::param(query, "where"@) == Some(arcgis_where(since))
            &&& query::param(query, "outFields"@) == Some("*"@)
            &&& query::param(query, "f"@) == Some("geojson"@)
            &&& query::param(query, "resultRecordCount"@) == Some("1000"@)
            &&& query::param(query, "resultOffset"@) matches Some(o) && query::is_count(o)
                && query::count_of(o) == offset
        }),
        PAGE_SIZE == 1000,
{
    reveal_strlit("where");
    reveal_strlit("outFields");
    reveal_strlit("f");
    reveal_strlit("resultRecordCount");
    reveal_strlit("resultOffset");
    reveal_strlit("1000");
    assert("where"@.len() == 5 && "outFields"@.len() == 9 && "f"@.len() == 1
        && "resultRecordCount"@.len() == 17 && "resultOffset"@.len() == 12);
    reveal_with_fuel(text::decimal, 5);
    assert(text::decimal(1000) =~= "1000"@);
    query::decimals_read_back(offset);
    reveal_with_fuel(query::param, 7);
}

/// The intake types that words name, in any case and with any space around. A word
/// that names none leaves the type unknown.
pub proof fn intake_types_go_by_their_words(s: Seq<char>)
    ensures
        ({
            let word = text::uppercase(text::trimmed(s));
            &&& arcgis_intake_type(s) == IntakeType::Stray <==> word == "STRAY"@ || word
                == "STRAY INCOMING"@ || word == "FIELD"@ || word == "CONFISCATED"@ || word
                == "WILDLIFE"@
            &&& arcgis_intake_type(s) == IntakeType::FoundReport <==> word == "FOUND"@ || word
                == "FOUND REPORT"@ || word == "FOUND_REPORT"@
            &&& arcgis_intake_type(s) == IntakeType::Stray || arcgis_intake_type(s)
                == IntakeType::FoundReport || arcgis_intake_type(s) == IntakeType::Unknown
        }),
{
    reveal_strlit("STRAY");
    reveal_strlit("STRAY INCOMING");
    reveal_strlit("FIELD");
    reveal_strlit("CONFISCATED");
    reveal_strlit("WILDLIFE");
    reveal_strlit("FOUND");
    reveal_strlit("FOUND REPORT");
    reveal_strlit("FOUND_REPORT");
    assert("STRAY"@[0] == 'S' && "STRAY INCOMING"@[0] == 'S' && "FIELD"@[1] == 'I'
        && "CONFISCATED"@[0] == 'C' && "WILDLIFE"@[0] == 'W' && "FOUND"@[1] == 'O'
        && "FOUND REPORT"@[1] == 'O' && "FOUND_REPORT"@[1] == 'O' && "FIELD"@[0] == 'F'
        && "FOUND"@[0] == 'F' && "FOUND REPORT"@[0] == 'F' && "FOUND_REPORT"@[0] == 'F');
}

/// A chip was found where the column says yes, scanned or microchipped, and was not
/// looked for where it says no or none; any other word says nothing.
pub proof fn chips_go_by_their_words(s: Seq<char>)
    ensures
        ({
            let word = text::uppercase(text::trimmed(s));
            &&& arcgis_chip_status(s) == (ChipStatusView::Scanned { chip: None }) <==> word
                == "YES"@ || word == "SCANNED"@ || word == "MICROCHIPPED"@
            &&& arcgis_chip_status(s) == ChipStatusView::NotScanned <==> word == "NO"@ || word
                == "NONE"@
            &&& arcgis_chip_status(s) == ChipStatusView::Unknown <==> word != "YES"@ && word
                != "SCANNED"@ && word != "MICROCHIPPED"@ && word != "NO"@ && word != "NONE"@
        }),
{
    reveal_strlit("YES");
    reveal_strlit("SCANNED");
    reveal_strlit("MICROCHIPPED");
    reveal_strlit("NO");
    reveal_strlit("NONE");
    assert("YES"@[0] == 'Y' && "SCANNED"@[0] == 'S' && "MICROCHIPPED"@[0] == 'M' && "NO"@[0] == 'N'
        && "NONE"@[0] == 'N');
}

/// An animal has departed where its outcome column holds a positive number of
/// milliseconds or some text; otherwise it can be adopted where its kennel status
/// speaks of adopting; and is in custody otherwise.
pub proof fn whereabouts_follow_outcome_and_kennel(props: Json, cm: ColumnMapView)
    ensures
        ({
            let outcome = match cm.outcome_date {
                Some(col) => json::member(props, col),
                None => None,
            };
            let left = match outcome {
                Some(Json::Int(n)) => 0 < n <= i64::MAX,
                Some(Json::Text(s)) => s.len() > 0,
                _ => false,
            };
            let offered = json::opt_cell_of(props, cm.kennel_status) matches Some(v) && text::has(
                text::uppercase(text::trimmed(v)),
                "ADOPT"@,
            );
            &&& arcgis_availability(props, cm) == Availability::Departed <==> left
            &&& arcgis_availability(props, cm) == Availability::Adoptable <==> !left && offered
            &&& arcgis_availability(props, cm) == Availability::InCustody <==> !left && !offered
        }),
{
}

/// A date is a number of milliseconds since the epoch, or a text that is read as
/// RFC 3339 where it is that, and else as a date and time in UTC by the first form
/// that fits.
pub proof fn dates_are_numbers_or_texts(props: Json, col: Seq<char>, s: Seq<char>, n: int)
    ensures
        json::member(props, col) == Some(Json::Int(n)) && i64::MIN <= n <= i64::MAX ==> arcgis_date(
            props,
            Some(col),
        ) == time::millis_instant(n),
        json::member(props, col) == Some(Json::Text(s)) ==> arcgis_date(props, Some(col))
            == arcgis_instant(s),
        json::member(props, col) is None ==> arcgis_date(props, Some(col)) is None,
        arcgis_date(props, None) is None,
        time::rfc3339_instant(s) matches Ok(m) ==> arcgis_instant(s) == Some(m),
        time::rfc3339_instant(s) is Err ==> (match time::formatted_instant(
            s,
            "%Y-%m-%dT%H:%M:%S%.f"@,
        ) {
            Some(m) => arcgis_instant(s) == Some(m),
            None => match time::formatted_instant(s, "%Y-%m-%d %H:%M:%S"@) {
                Some(m) => arcgis_instant(s) == Some(m),
                None => arcgis_instant(s) == time::formatted_instant(s, "%Y/%m/%d %H:%M:%S"@),
            },
        }),
{
}

/// A feature of a stray becomes the record of its animal, each part from the column
/// that the source maps to it; any other feature becomes none. The animal was seen
/// when it came in, where that is known, and else now; it is confirmed now; and it
/// has no photo and no location of its own.
pub proof fn features_become_records(props: Json, config: ArcGisConfigView, id: u128, now: Moment)
    ensures
        ({
            let cm = config.column_map;
            let stray = json::cell_of(props, cm.intake_type) matches Some(v) && stray::is_stray(v);
            match arcgis_record(props, config, id, now) {
                Ok(None) => !stray,
                Err(e) => stray && socrata::species_of(
                    match json::cell_of(props, cm.animal_type) {
                        Some(v) => v,
                        None => "unknown"@,
                    },
                ) == Err::<Species, ConnectorErrorView>(e),
                Ok(Some(rec)) => {
                    &&& stray
                    &&& rec.canonical_id == id
                    &&& rec.source.name == config.name
                    &&& rec.source.tos_class == TosClass::OpenData
                    &&& rec.source_animal_id == json::cell_of(props, cm.animal_id)
                    &&& socrata::species_of(
                        match json::cell_of(props, cm.animal_type) {
                            Some(v) => v,
                            None => "unknown"@,
                        },
                    ) == Ok::<Species, ConnectorErrorView>(rec.species)
                    &&& rec.breed_primary == json::opt_cell_of(props, cm.breed)
                    &&& rec.colors == (match json::opt_cell_of(props, cm.color) {
                        Some(v) => seq![v],
                        None => Seq::empty(),
                    })
                    &&& json::cell_of(props, cm.intake_type) matches Some(v) ==> rec.intake_type
                        == arcgis_intake_type(v)
                    &&& rec.availability == arcgis_availability(props, cm)
                    &&& rec.chip_status == (match json::opt_cell_of(props, cm.chip_status) {
                        Some(v) => arcgis_chip_status(v),
                        None => ChipStatusView::Unknown,
                    })
                    &&& rec.found_location_text == json::opt_cell_of(props, cm.found_location)
                    &&& rec.intake_date == arcgis_date(props, cm.intake_date)
                    &&& rec.outcome_date == arcgis_date(props, cm.outcome_date)
                    &&& rec.intake_date matches Some(m) ==> rec.first_seen == m && rec.last_seen == m
                    &&& rec.intake_date is None ==> rec.first_seen == now && rec.last_seen == now
                    &&& rec.last_confirmed == Some(now)
                    &&& rec.location is None
                    &&& rec.photos.len() == 0
                    &&& rec.breed_secondary is None
                    &&& rec.sex is None
                    &&& rec.age_bucket is None
                    &&& rec.size is None
                    &&& rec.markings_text is None
                    &&& rec.secondary_provenances.len() == 0
                },
            }
        }),
{
    lemma_blank_is_no_stray();
}

proof fn lemma_blank_is_no_stray()
    ensures
        !stray::is_stray(""@),
{
    reveal_strlit("");
    text::trimming_keeps_the_rest(""@);
    stray::strays_go_by_six_words(""@);
    assert(text::uppercase(""@).len() == 0);
    reveal_strlit("STRAY");
    reveal_strlit("FOUND");
    reveal_strlit("STRAY INCOMING");
    reveal_strlit("FIELD");
    reveal_strlit("CONFISCATED");
    reveal_strlit("WILDLIFE");
}

/// A page gives one record for each feature that has one, in the order of the
/// features, and none for the others; it says that more follow where its flag says
/// so, and only then.
pub proof fn one_more_feature_is_one_more_record(
    features: Seq<Json>,
    feature: Json,
    config: ArcGisConfigView,
    stamps: Seq<Stamp>,
)
    ensures
        ({
            let props = match json::member(feature, "properties"@) {
                Some(v) => v,
                None => Json::Null,
            };
            let stamp = stamps[features.len() as int];
            arcgis_records(features.push(feature), config, stamps) == (match arcgis_record(
                props,
                config,
                stamp.id,
                stamp.now@,
            ) {
                Ok(Some(rec)) => arcgis_records(features, config, stamps).push(rec),
                _ => arcgis_records(features, config, stamps),
            })
        }),
        arcgis_records(Seq::empty(), config, stamps).len() == 0,
        held_back(feature) <==> json::member(feature, "exceededTransferLimit"@) == Some(
            Json::Bool(true),
        ),
        features_of(feature) matches Some(items) ==> json::member(feature, "features"@) == Some(
            Json::List(items),
        ),
{
    assert(features.push(feature).drop_last() =~= features);
}

} // verus!
