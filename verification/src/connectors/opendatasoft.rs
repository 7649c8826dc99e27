//! OpenDataSoft Explore API v2.1 connector.
//!
//! Records are filtered with an ODSQL clause, paged by limit and offset, and
//! each carries a timestamp that stands in for a missing intake date. Only
//! records whose intake column holds a stray word survive.

use serde_json::Value;
use url::Url;
use vstd::prelude::*;

use crate::catalog::{OdsConfigView, OpenDataSoftConfig};
use crate::connectors::socrata;
use crate::connectors::socrata::{ColumnMapView, SocrataColumnMap};
use crate::error;
use crate::error::{ConnectorError, ConnectorErrorView};
use crate::json;
use crate::json::Json;
use crate::outcome;
use crate::query;
use crate::poll;
use crate::poll::PollView;
use crate::probe::{ProbeError, ProbeErrorView};
use crate::schema::{
    Availability, ChipStatus, ChipStatusView, Cursor, IntakeType, PetRecord, PetRecordView,
    Provenance, ProvenanceView, SourceId, SourceIdView, Species, Stamp, TosClass,
};
use crate::span;
use crate::stray;
use crate::text;
use crate::time;
use crate::time::{Moment, Timestamp};
use crate::web;

pub use crate::stray::{is_stray_value, STRAY_VALUES};

verus! {

/// Maximum records per ODS page.
pub const PAGE_SIZE: u64 = 100;

/// The pause between requests to the source, in milliseconds.
pub const MIN_INTERVAL_MS: u64 = 300;

/// One record of a page.
pub struct OdsRecord {
    /// The portal's identifier for the record.
    pub id: Option<String>,
    /// When the portal last touched the record.
    pub timestamp: Option<String>,
    /// The record's fields.
    pub fields: Value,
}

/// The model of an [`OdsRecord`].
pub struct OdsRecordView {
    /// The portal's identifier for the record.
    pub id: Option<Seq<char>>,
    /// When the portal last touched the record.
    pub timestamp: Option<Seq<char>>,
    /// The record's fields.
    pub fields: Json,
}

impl DeepView for OdsRecord {
    type V = OdsRecordView;

    open spec fn deep_view(&self) -> OdsRecordView {
        OdsRecordView {
            id: self.id.deep_view(),
            timestamp: self.timestamp.deep_view(),
            fields: json::contents(self.fields),
        }
    }
}

/// One page of records.
pub struct OdsResponse {
    /// How many records match in all.
    pub total_count: u64,
    /// The records of this page.
    pub results: Vec<OdsRecord>,
}

// ---------------------------------------------------------------------------
// Normalization
// ---------------------------------------------------------------------------

/// The species that a word names, in any case and with space around it.
pub fn parse_ods_species(s: &str) -> (res: Result<Species, ConnectorError>)
    ensures
        match res {
            Ok(v) => socrata::species_of(s@) == Ok::<Species, ConnectorErrorView>(v),
            Err(e) => socrata::species_of(s@) == Err::<Species, ConnectorErrorView>(e.deep_view()),
        },
{
    socrata::parse_socrata_species(s)
}

/// The intake type that a word names, in any case and with space around it.
pub open spec fn ods_intake_type(s: Seq<char>) -> IntakeType {
    let word = text::uppercase(text::trimmed(s));
    if word == "STRAY"@ {
        IntakeType::Stray
    } else if word == "FOUND"@ || word == "FOUND REPORT"@ || word == "FOUND_REPORT"@ {
        IntakeType::FoundReport
    } else if word == "WILDLIFE"@ || word == "CONFISCATED"@ || word == "FIELD"@ {
        IntakeType::Stray
    } else {
        IntakeType::Unknown
    }
}

/// Maps ODS intake strings to [`IntakeType`].
pub fn parse_ods_intake_type(s: &str) -> (res: IntakeType)
    ensures
        res == ods_intake_type(s@),
{
    let word = text::upper(s.trim());
    if text::same(&word, "STRAY") {
        IntakeType::Stray
    } else if text::same(&word, "FOUND") || text::same(&word, "FOUND REPORT") || text::same(
        &word,
        "FOUND_REPORT",
    ) {
        IntakeType::FoundReport
    } else if text::same(&word, "WILDLIFE") || text::same(&word, "CONFISCATED") || text::same(
        &word,
        "FIELD",
    ) {
        IntakeType::Stray
    } else {
        IntakeType::Unknown
    }
}

/// Determines availability from the outcome-date and kennel-status columns.
pub fn determine_ods_availability(fields: &Value, cm: &SocrataColumnMap) -> (res: Availability)
    ensures
        res == socrata::soda_availability(json::contents(*fields), cm.deep_view()),
{
    socrata::determine_availability(fields, cm)
}

/// What a chip column's text says: a denial wins over an affirmation.
pub fn parse_ods_chip_status(s: &str) -> (res: ChipStatus)
    ensures
        res.deep_view() == socrata::chip_status_of(s@),
{
    socrata::parse_socrata_chip_status(s)
}

/// The instant that an ODS date names: RFC 3339, or a date and time without a
/// zone, either with a space for the `T`; or a day.
pub open spec fn ods_instant(s: Seq<char>) -> Option<Moment> {
    let t = text::replaced_first(s, ' ', 'T');
    if time::rfc3339_instant(t) is Ok {
        Some(time::rfc3339_instant(t)->Ok_0)
    } else if time::formatted_instant(t, "%Y-%m-%dT%H:%M:%S%.f"@) is Some {
        time::formatted_instant(t, "%Y-%m-%dT%H:%M:%S%.f"@)
    } else if time::formatted_instant(t, "%Y-%m-%dT%H:%M:%S"@) is Some {
        time::formatted_instant(t, "%Y-%m-%dT%H:%M:%S"@)
    } else if time::formatted_instant(t, "%Y-%m-%d"@) is Some {
        time::formatted_instant(t, "%Y-%m-%d"@)
    } else {
        time::formatted_day(s, "%Y-%m-%d"@)
    }
}

/// Reads an ODS date.
pub fn parse_ods_datetime(s: &str) -> (res: Option<Timestamp>)
    ensures
        res.deep_view() == ods_instant(s@),
{
    let t = text::replace_first(s, ' ', 'T');
    if let Ok(ts) = time::read_rfc3339(&t) {
        return Some(ts);
    }
    if let Some(ts) = time::read_datetime(&t, "%Y-%m-%dT%H:%M:%S%.f") {
        return Some(ts);
    }
    if let Some(ts) = time::read_datetime(&t, "%Y-%m-%dT%H:%M:%S") {
        return Some(ts);
    }
    if let Some(ts) = time::read_datetime(&t, "%Y-%m-%d") {
        return Some(ts);
    }
    time::read_date(s, "%Y-%m-%d")
}

/// The instant of a text that may be missing.
pub open spec fn ods_date(s: Option<Seq<char>>) -> Option<Moment> {
    match s {
        Some(v) => ods_instant(v),
        None => None,
    }
}

/// When the animal came in: the intake column, or else the record's timestamp.
pub open spec fn ods_intake_date(record: OdsRecordView, cm: ColumnMapView) -> Option<Moment> {
    let from_column = ods_date(json::opt_cell_of(record.fields, cm.intake_date));
    if from_column is Some {
        from_column
    } else {
        ods_date(record.timestamp)
    }
}

/// The record of an ODS record that was read at `now`; nothing where the intake
/// is not of a stray, and an error where it is but the species is not known.
pub open spec fn ods_record(
    record: OdsRecordView,
    config: OdsConfigView,
    id: u128,
    now: Moment,
) -> Result<Option<PetRecordView>, ConnectorErrorView> {
    let cm = config.column_map;
    let fields = record.fields;
    let intake = socrata::or_else(json::cell_of(fields, cm.intake_type), ""@);
    let intake_date = ods_intake_date(record, cm);
    let seen = if intake_date is Some {
        intake_date->0
    } else {
        now
    };
    if !stray::is_stray(intake) {
        Ok(None)
    } else {
        match socrata::species_of(
            socrata::or_else(json::cell_of(fields, cm.animal_type), "unknown"@),
        ) {
            Err(e) => Err(e),
            Ok(species) => Ok(
                Some(
                    PetRecordView {
                        canonical_id: id,
                        source: SourceIdView { name: config.name, tos_class: TosClass::OpenData },
                        source_animal_id: json::cell_of(fields, cm.animal_id),
                        species,
                        breed_primary: json::opt_cell_of(fields, cm.breed),
                        breed_secondary: None,
                        sex: None,
                        age_bucket: None,
                        size: None,
                        colors: socrata::at_most_one(json::opt_cell_of(fields, cm.color)),
                        markings_text: None,
                        intake_type: ods_intake_type(intake),
                        availability: socrata::soda_availability(fields, cm),
                        chip_status: match json::opt_cell_of(fields, cm.chip_status) {
                            Some(s) => socrata::chip_status_of(s),
                            None => ChipStatusView::Unknown,
                        },
                        location: None,
                        found_location_text: json::opt_cell_of(fields, cm.found_location),
                        photos: Seq::empty(),
                        first_seen: seen,
                        last_seen: seen,
                        last_confirmed: Some(now),
                        intake_date,
                        outcome_date: ods_date(json::opt_cell_of(fields, cm.outcome_date)),
                        secondary_provenances: Seq::empty(),
                    },
                ),
            ),
        }
    }
}

/// Normalizes one ODS record that was read at the stamp's instant.
pub fn normalize_ods_record_at(
    record: &OdsRecord,
    config: &OpenDataSoftConfig,
    stamp: &Stamp,
) -> (res: Result<Option<PetRecord>, ConnectorError>)
    ensures
        outcome::of(res) == ods_record(
            record.deep_view(),
            config.deep_view(),
            stamp.id,
            stamp.now@,
        ),
{
    let cm = &config.column_map;
    let fields = &record.fields;
    let intake = match json::cell(fields, &cm.intake_type) {
        Some(s) => s,
        None => "",
    };
    if !stray::is_stray_value(intake) {
        return Ok(None);
    }
    let animal_type = match json::cell(fields, &cm.animal_type) {
        Some(s) => s,
        None => "unknown",
    };
    let species = match parse_ods_species(animal_type) {
        Ok(v) => v,
        Err(e) => return Err(e),
    };
    let intake_type = parse_ods_intake_type(intake);
    let animal_id = match json::cell(fields, &cm.animal_id) {
        Some(s) => Some(s.to_owned()),
        None => None,
    };
    let from_column = match json::opt_cell(fields, &cm.intake_date) {
        Some(s) => parse_ods_datetime(s),
        None => None,
    };
    let intake_date = match from_column {
        Some(ts) => Some(ts),
        None => match &record.timestamp {
            Some(s) => parse_ods_datetime(s.as_str()),
            None => None,
        },
    };
    let outcome_date = match json::opt_cell(fields, &cm.outcome_date) {
        Some(s) => parse_ods_datetime(s),
        None => None,
    };
    let availability = determine_ods_availability(fields, cm);
    let chip_status = match json::opt_cell(fields, &cm.chip_status) {
        Some(s) => parse_ods_chip_status(s),
        None => ChipStatus::Unknown,
    };
    let seen = match intake_date {
        Some(ts) => ts,
        None => stamp.now,
    };
    let rec = PetRecord {
        canonical_id: stamp.id,
        source: SourceId::new(&config.name, TosClass::OpenData),
        source_animal_id: animal_id,
        species,
        breed_primary: json::opt_text(fields, &cm.breed),
        breed_secondary: None,
        sex: None,
        age_bucket: None,
        size: None,
        colors: socrata::one_or_none(json::opt_text(fields, &cm.color)),
        markings_text: None,
        intake_type,
        availability,
        chip_status,
        location: None,
        found_location_text: json::opt_text(fields, &cm.found_location),
        photos: Vec::new(),
        first_seen: seen,
        last_seen: seen,
        last_confirmed: Some(stamp.now),
        intake_date,
        outcome_date,
        secondary_provenances: Vec::new(),
    };
    proof {
        assert(rec.photos.deep_view() =~= Seq::empty());
        assert(rec.secondary_provenances.deep_view() =~= Seq::empty());
    }
    Ok(Some(rec))
}

/// Normalizes one ODS record, with a fresh identifier and the current instant.
pub fn normalize_ods_record(record: &OdsRecord, config: &OpenDataSoftConfig) -> (res: Result<
    Option<PetRecord>,
    ConnectorError,
>)
    ensures
        exists|id: u128, now: Moment|
            time::clock_shows(now) && outcome::of(res) == #[trigger] ods_record(
                record.deep_view(),
                config.deep_view(),
                id,
                now,
            ),
{
    let stamp = Stamp::fresh();
    normalize_ods_record_at(record, config, &stamp)
}

// ---------------------------------------------------------------------------
// Polling
// ---------------------------------------------------------------------------

/// The address of a dataset.
pub open spec fn dataset_url(base_url: Seq<char>, dataset_id: Seq<char>) -> Seq<char> {
    text::without_suffix(base_url, '/') + "/api/explore/v2.1/catalog/datasets/"@ + dataset_id
}

/// The address of a dataset's records.
pub open spec fn records_url(config: OdsConfigView) -> Seq<char> {
    dataset_url(config.base_url, config.dataset_id) + "/records"@
}

/// The field that records are ordered by: the intake column, or else the
/// portal's timestamp.
pub open spec fn order_field(cm: ColumnMapView) -> Seq<char> {
    socrata::or_else(cm.intake_date, "record_timestamp"@)
}

/// Dogs and cats; in a delta poll, those that came in after an instant.
pub open spec fn ods_where(cm: ColumnMapView, since: Option<Moment>) -> Seq<char> {
    let animals = "upper("@ + cm.animal_type + ") in ('DOG','CAT')"@;
    match since {
        Some(m) => animals + " AND "@ + order_field(cm) + " > '"@ + time::formatted(
            m,
            "%Y-%m-%dT%H:%M:%S"@,
        ) + "'"@,
        None => animals,
    }
}

/// The query of one page.
pub open spec fn ods_query(cm: ColumnMapView, offset: nat, since: Option<Moment>) -> Seq<
    (Seq<char>, Seq<char>),
> {
    seq![
        ("limit"@, text::decimal(PAGE_SIZE as nat)),
        ("offset"@, text::decimal(offset)),
        ("where"@, ods_where(cm, since)),
        ("order_by"@, order_field(cm) + " DESC"@),
    ]
}

/// Where records of a dataset come from.
pub open spec fn ods_provenance(config: OdsConfigView, now: Moment) -> ProvenanceView {
    ProvenanceView {
        source: SourceIdView { name: config.name, tos_class: TosClass::OpenData },
        fetched_at: now,
        source_url: Some(records_url(config)),
        source_etag: None,
    }
}

/// The records of the strays that can be normalized, in order; the others are
/// skipped.
pub open spec fn ods_records(
    results: Seq<OdsRecordView>,
    config: OdsConfigView,
    stamps: Seq<Stamp>,
) -> Seq<PetRecordView>
    decreases results.len(),
{
    if results.len() == 0 {
        Seq::empty()
    } else {
        let before = ods_records(results.drop_last(), config, stamps);
        let stamp = stamps[results.len() - 1];
        match ods_record(results.last(), config, stamp.id, stamp.now@) {
            Ok(Some(rec)) => before.push(rec),
            _ => before,
        }
    }
}

/// OpenDataSoft Explore API v2.1 connector.
pub struct OpenDataSoftConnector {
    /// The dataset to poll.
    pub config: OpenDataSoftConfig,
}

fn write_dataset_url(base_url: &str, dataset_id: &str) -> (res: String)
    ensures
        res@ == dataset_url(base_url@, dataset_id@),
{
    text::drop_suffix(base_url, '/').concat("/api/explore/v2.1/catalog/datasets/").concat(
        dataset_id,
    )
}

impl OpenDataSoftConnector {
    /// A connector for one dataset.
    pub fn new(config: OpenDataSoftConfig) -> (res: Self)
        ensures
            res.config == config,
    {
        OpenDataSoftConnector { config }
    }

    fn records(&self) -> (res: String)
        ensures
            res@ == records_url(self.config.deep_view()),
    {
        write_dataset_url(&self.config.base_url, &self.config.dataset_id).concat("/records")
    }

    /// Builds the ODS records URL for a page offset and an optional instant.
    pub fn build_url(&self, offset: u64, since: Option<&Timestamp>) -> (res: Result<
        Url,
        ConnectorError,
    >)
        ensures
            error::url_outcome(res) == error::url_result(
                web::built(
                    records_url(self.config.deep_view()),
                    ods_query(
                        self.config.deep_view().column_map,
                        offset as nat,
                        since.deep_view(),
                    ),
                ),
            ),
    {
        let cm = &self.config.column_map;
        let order = match &cm.intake_date {
            Some(col) => col.as_str(),
            None => "record_timestamp",
        };
        let animals = "upper(".to_owned().concat(&cm.animal_type).concat(") in ('DOG','CAT')");
        let filter = match since {
            Some(ts) => animals.concat(" AND ").concat(order).concat(" > '").concat(
                &time::write_datetime(ts, "%Y-%m-%dT%H:%M:%S"),
            ).concat("'"),
            None => animals,
        };
        let mut query: Vec<(String, String)> = Vec::new();
        query.push(web::pair("limit", text::write_decimal(PAGE_SIZE)));
        query.push(web::pair("offset", text::write_decimal(offset)));
        query.push(web::pair("where", filter));
        query.push(web::pair("order_by", order.to_owned().concat(" DESC")));
        proof {
            assert(web::pairs_of(query@) =~= ods_query(
                self.config.deep_view().column_map,
                offset as nat,
                since.deep_view(),
            ));
        }
        error::url_or_error(web::build(&self.records(), &query))
    }

    /// Where records come from that were fetched at `now`.
    pub fn provenance_at(&self, now: Timestamp) -> (res: Provenance)
        ensures
            res.deep_view() == ods_provenance(self.config.deep_view(), now@),
    {
        Provenance {
            source: SourceId::new(&self.config.name, TosClass::OpenData),
            fetched_at: now,
            source_url: Some(self.records()),
            source_etag: None,
        }
    }

    /// Where records come from that are fetched now.
    pub fn provenance(&self) -> (res: Provenance)
        ensures
            res.deep_view() == ods_provenance(self.config.deep_view(), res.fetched_at@),
            time::clock_shows(res.fetched_at@),
    {
        self.provenance_at(time::now())
    }

    /// How often to poll: municipal shelters update frequently, so every four
    /// hours.
    pub fn cadence_hint(&self) -> (res: std::time::Duration)
        ensures
            span::nanos_of(res) == 4 * 3600 * 1_000_000_000,
    {
        std::time::Duration::from_secs(4 * 3600)
    }

    /// Begins a poll.
    pub fn start_poll(&self, since: &Option<Cursor>) -> (res: OdsPoll)
        ensures
            res@ == poll::begun(Cursor::instant(*since)),
    {
        let res = OdsPoll {
            since: Cursor::since(since),
            offset: 0,
            records: Vec::new(),
            done: false,
        };
        assert(res.records.deep_view() =~= Seq::empty());
        res
    }
}

/// A poll under way: what is still to be fetched and what has been gathered.
pub struct OdsPoll {
    /// Only records that came in after this instant are asked for.
    pub since: Option<Timestamp>,
    /// Where the next page begins.
    pub offset: u64,
    /// The records so far.
    pub records: Vec<PetRecord>,
    /// Whether the last page has been read.
    pub done: bool,
}

impl View for OdsPoll {
    type V = PollView;

    open spec fn view(&self) -> PollView {
        PollView {
            since: self.since.deep_view(),
            offset: self.offset as nat,
            records: self.records.deep_view(),
            done: self.done,
        }
    }
}

impl OdsPoll {
    /// The URL of the next page.
    pub fn next_url(&self, connector: &OpenDataSoftConnector) -> (res: Result<Url, ConnectorError>)
        ensures
            error::url_outcome(res) == error::url_result(
                web::built(
                    records_url(connector.config.deep_view()),
                    ods_query(
                        connector.config.deep_view().column_map,
                        self.offset as nat,
                        self.since.deep_view(),
                    ),
                ),
            ),
    {
        connector.build_url(self.offset, self.since.as_ref())
    }

    /// Takes note of a reply that says nothing has changed: the poll is over.
    pub fn not_modified(&mut self)
        ensures
            final(self)@ == old(self)@.unchanged(),
            final(self).records == old(self).records,
    {
        self.done = true;
    }

    /// Takes in one page: the records of the strays on it are kept. A short
    /// page, or one that reaches the total, is the last.
    pub fn absorb(&mut self, page: &OdsResponse, config: &OpenDataSoftConfig, stamps: &Vec<Stamp>)
        requires
            stamps.len() == page.results.len(),
            old(self).offset + PAGE_SIZE <= u64::MAX,
        ensures
            final(self).records.deep_view() == old(self).records.deep_view() + ods_records(
                page.results.deep_view(),
                config.deep_view(),
                stamps@,
            ),
            final(self).offset == old(self).offset + PAGE_SIZE,
            final(self).done == (page.results.len() < PAGE_SIZE || old(self).offset + PAGE_SIZE
                >= page.total_count),
            final(self).since == old(self).since,
    {
        let results = &page.results;
        let ghost all = results.deep_view();
        let ghost before = self.records.deep_view();
        let mut i: usize = 0;
        while i < results.len()
            invariant
                i <= results.len(),
                stamps.len() == results.len(),
                all == results.deep_view(),
                self.offset == old(self).offset,
                self.since == old(self).since,
                before == old(self).records.deep_view(),
                self.records.deep_view() =~= before + ods_records(
                    all.take(i as int),
                    config.deep_view(),
                    stamps@,
                ),
            decreases results.len() - i,
        {
            proof {
                assert(all.take(i + 1).drop_last() == all.take(i as int));
                assert(all.take(i + 1).last() == results@[i as int].deep_view());
            }
            match normalize_ods_record_at(&results[i], config, &stamps[i]) {
                Ok(Some(rec)) => {
                    let ghost sofar = self.records.deep_view();
                    self.records.push(rec);
                    proof {
                        assert(self.records.deep_view() =~= sofar.push(rec.deep_view()));
                    }
                },
                Ok(None) => {},
                Err(_) => {},
            }
            i += 1;
        }
        proof {
            assert(all.take(results.len() as int) == all);
        }
        self.offset = self.offset + PAGE_SIZE;
        self.done = (results.len() as u64) < PAGE_SIZE || self.offset >= page.total_count;
    }
}

// ---------------------------------------------------------------------------
// Probing
// ---------------------------------------------------------------------------

/// The address of a dataset's metadata.
pub fn ods_fields_url(base_url: &str, dataset_id: &str) -> (res: String)
    ensures
        res@ == dataset_url(base_url@, dataset_id@),
{
    write_dataset_url(base_url, dataset_id)
}

/// The address of a one-record sample.
pub fn ods_sample_url(base_url: &str, dataset_id: &str) -> (res: String)
    ensures
        res@ == dataset_url(base_url@, dataset_id@) + "/records?limit=1"@,
{
    write_dataset_url(base_url, dataset_id).concat("/records?limit=1")
}

/// The names in a row of field descriptions, in order; those without a name are
/// skipped.
pub open spec fn names_of(fields: Seq<Json>) -> Seq<Seq<char>>
    decreases fields.len(),
{
    if fields.len() == 0 {
        Seq::empty()
    } else {
        let before = names_of(fields.drop_last());
        match json::cell_of(fields.last(), "name"@) {
            Some(name) => before.push(name),
            None => before,
        }
    }
}

/// The field names of a dataset's metadata.
pub open spec fn field_names(metadata: Json) -> Seq<Seq<char>> {
    match json::member(metadata, "fields"@) {
        Some(v) => match v {
            Json::List(items) => names_of(items),
            _ => Seq::empty(),
        },
        None => Seq::empty(),
    }
}

/// The field names in the text of a dataset's metadata, or the complaint about
/// a text that is no JSON.
pub open spec fn read_field_names(text: Seq<char>) -> Result<Seq<Seq<char>>, ProbeErrorView> {
    match json::json_of(text) {
        Ok(v) => Ok(field_names(v)),
        Err(e) => Err(ProbeErrorView::Json(e)),
    }
}

/// The field names of a dataset's metadata.
pub fn ods_field_names(metadata: &Value) -> (res: Vec<String>)
    ensures
        res.deep_view() == field_names(json::contents(*metadata)),
{
    let mut out: Vec<String> = Vec::new();
    let items = match json::get(metadata, "fields") {
        Some(v) => match v.as_array() {
            Some(items) => items,
            None => {
                assert(out.deep_view() =~= Seq::empty());
                return out;
            },
        },
        None => {
            assert(out.deep_view() =~= Seq::empty());
            return out;
        },
    };
    let ghost all = json::all_contents(items@);
    let mut i: usize = 0;
    while i < items.len()
        invariant
            i <= items.len(),
            all == json::all_contents(items@),
            out.deep_view() =~= names_of(all.take(i as int)),
        decreases items.len() - i,
    {
        proof {
            assert(all.take(i + 1).drop_last() == all.take(i as int));
            assert(all.take(i + 1).last() == json::contents(items@[i as int]));
        }
        if let Some(name) = json::cell(&items[i], "name") {
            let ghost sofar = out.deep_view();
            out.push(name.to_owned());
            assert(out.deep_view() =~= sofar.push(name@));
        }
        i += 1;
    }
    proof {
        assert(all.take(items.len() as int) == all);
    }
    out
}

/// Reads the field names out of the text of a dataset's metadata.
pub fn ods_fields(text: &str) -> (res: Result<Vec<String>, ProbeError>)
    ensures
        outcome::of(res) == read_field_names(text@),
{
    match json::parse(text) {
        Ok(v) => Ok(ods_field_names(&v)),
        Err(e) => Err(ProbeError::Json(e)),
    }
}

/// The fields of the first record of a page; `null` where there is none.
pub open spec fn first_fields(page: Json) -> Json {
    match json::member(page, "results"@) {
        Some(Json::List(items)) => if items.len() == 0 {
            Json::Null
        } else {
            match json::member(items[0], "record"@) {
                Some(record) => match json::member(record, "fields"@) {
                    Some(fields) => fields,
                    None => Json::Null,
                },
                None => Json::Null,
            }
        },
        _ => Json::Null,
    }
}

/// The fields of the first record of a page; `null` where there is none.
pub fn ods_first_fields(page: &Value) -> (res: Value)
    ensures
        json::contents(res) == first_fields(json::contents(*page)),
{
    if let Some(results) = json::get(page, "results") {
        if let Some(items) = results.as_array() {
            if items.len() > 0 {
                assert(json::all_contents(items@)[0] == json::contents(items@[0]));
                if let Some(record) = json::get(&items[0], "record") {
                    if let Some(fields) = json::get(record, "fields") {
                        return fields.clone();
                    }
                }
            }
        }
    }
    json::null()
}

/// Reads the sample record out of a page's text; `null` where the page could
/// not be fetched, is no JSON or has no record.
pub fn ods_sample(text: Option<&str>) -> (res: Value)
    ensures
        json::contents(res) == (match text {
            Some(t) => match json::json_of(t@) {
                Ok(page) => first_fields(page),
                Err(_) => Json::Null,
            },
            None => Json::Null,
        }),
{
    match text {
        Some(t) => match json::parse(t) {
            Ok(page) => ods_first_fields(&page),
            Err(_) => json::null(),
        },
        None => json::null(),
    }
}

// ---------------------------------------------------------------------------
// Laws
// ---------------------------------------------------------------------------

/// Whether a record's intake column, if it has one, holds a stray word.
pub open spec fn is_stray_record(record: OdsRecordView, cm: ColumnMapView) -> bool {
    stray::is_stray(socrata::or_else(json::cell_of(record.fields, cm.intake_type), ""@))
}

/// Only records of strays survive a page, each at most once and in order, and
/// they name the configured source as open data and carry no photo.
pub proof fn only_strays_survive(
    results: Seq<OdsRecordView>,
    config: OdsConfigView,
    stamps: Seq<Stamp>,
)
    ensures
        ods_records(results, config, stamps).len() <= results.filter(
            |r: OdsRecordView| is_stray_record(r, config.column_map),
        ).len(),
        forall|i: int|
            0 <= i < ods_records(results, config, stamps).len() ==> {
                let rec = #[trigger] ods_records(results, config, stamps)[i];
                &&& rec.source == (SourceIdView {
                    name: config.name,
                    tos_class: TosClass::OpenData,
                })
                &&& rec.photos.len() == 0
                &&& rec.location is None
                &&& rec.last_confirmed is Some
            },
    decreases results.len(),
{
    reveal(Seq::filter);
    if results.len() > 0 {
        only_strays_survive(results.drop_last(), config, stamps);
    }
}

/// A delta poll asks for the records that a full poll asks for and that came in
/// after the cursor: its filter is that of a full poll with one clause more, which
/// compares the intake column, or else the portal's timestamp, with the quoted
/// cursor and lets exactly the records of later instants through.
pub proof fn delta_polls_ask_for_later_records(cm: ColumnMapView, cursor: Moment, row: Moment)
    requires
        cm.intake_date matches Some(col) ==> !col.contains(' '),
    ensures
        exists|clause: Seq<char>| #[trigger]
            ods_clause(cm, cursor, clause) && (query::asks_for(
                clause,
                match cm.intake_date {
                    Some(col) => col,
                    None => "record_timestamp"@,
                },
                seq!['\''] + time::formatted(cursor, "%Y-%m-%dT%H:%M:%S"@) + seq!['\''],
                cursor,
                row,
            ) <==> query::later(row, cursor)),
{
    reveal_strlit(" AND ");
    reveal_strlit(" > '");
    reveal_strlit("'");
    reveal_strlit("record_timestamp");
    let field = match cm.intake_date {
        Some(col) => col,
        None => "record_timestamp"@,
    };
    assert(!"record_timestamp"@.contains(' '));
    let stamp = time::formatted(cursor, "%Y-%m-%dT%H:%M:%S"@);
    let operand = seq!['\''] + stamp + seq!['\''];
    let clause = field + seq![' '] + seq!['>'] + seq![' '] + operand;
    query::comparison_reads(field, seq!['>'], operand);
    assert(ods_where(cm, Some(cursor)) =~= ods_where(cm, None) + seq![' ', 'A', 'N', 'D', ' ']
        + clause);
    assert(ods_clause(cm, cursor, clause));
}

/// Whether a clause is what a delta poll adds to the filter of a full one.
pub open spec fn ods_clause(cm: ColumnMapView, cursor: Moment, clause: Seq<char>) -> bool {
    ods_where(cm, Some(cursor)) == ods_where(cm, None) + seq![' ', 'A', 'N', 'D', ' '] + clause
}

/// A full poll asks for dogs and cats, by the column of the species in upper case,
/// at the portal's records of the dataset.
pub proof fn full_polls_ask_for_dogs_and_cats(config: OdsConfigView)
    requires
        config.base_url.len() > 0 && config.base_url.last() != '/',
    ensures
        ods_where(config.column_map, None) == "upper("@ + config.column_map.animal_type
            + ") in ('DOG','CAT')"@,
        records_url(config) == config.base_url + "/api/explore/v2.1/catalog/datasets/"@
            + config.dataset_id + "/records"@,
        records_url(OdsConfigView { base_url: config.base_url.push('/'), ..config })
            == records_url(config),
{
    assert(config.base_url.push('/').drop_last() =~= config.base_url);
    reveal_with_fuel(text::without_suffix, 3);
}

/// A page is asked for by its size, a hundred records, by where it begins, by the
/// filter, and the latest first. The page behind a page begins a hundred records
/// later.
pub proof fn pages_are_asked_for_by_place(cm: ColumnMapView, offset: nat, since: Option<Moment>)
    ensures
        ({
            let query = ods_query(cm, offset, since);
            &&& query::param(query, "limit"@) == Some("100"@)
            &&& query::param(query, "offset"@) matches Some(o) && query::is_count(o)
                && query::count_of(o) == offset
            &&& query::param(query, "where"@) == Some(ods_where(cm, since))
            &&& query::param(query, "order_by"@) == Some(
                (match cm.intake_date {
                    Some(col) => col,
                    None => "record_timestamp"@,
                }) + " DESC"@,
            )
        }),
        PAGE_SIZE == 100,
{
    reveal_strlit("limit");
    reveal_strlit("offset");
    reveal_strlit("where");
    reveal_strlit("order_by");
    reveal_strlit("100");
    assert("limit"@[0] == 'l' && "where"@[0] == 'w' && "offset"@.len() == 6 && "order_by"@.len() == 8
        && "limit"@.len() == 5 && "where"@.len() == 5);
    reveal_with_fuel(text::decimal, 4);
    assert(text::decimal(100) =~= "100"@);
    query::decimals_read_back(offset);
    reveal_with_fuel(query::param, 6);
}

/// The intake types that words name, in any case and with any space around. A word
/// that names none leaves the type unknown.
pub proof fn intake_types_go_by_their_words(s: Seq<char>)
    ensures
        ({
            let word = text::uppercase(text::trimmed(s));
            &&& ods_intake_type(s) == IntakeType::Stray <==> word == "STRAY"@ || word == "FIELD"@
                || word == "CONFISCATED"@ || word == "WILDLIFE"@
            &&& ods_intake_type(s) == IntakeType::FoundReport <==> word == "FOUND"@ || word
                == "FOUND REPORT"@ || word == "FOUND_REPORT"@
            &&& ods_intake_type(s) == IntakeType::Stray || ods_intake_type(s)
                == IntakeType::FoundReport || ods_intake_type(s) == IntakeType::Unknown
        }),
{
    reveal_strlit("STRAY");
    reveal_strlit("FIELD");
    reveal_strlit("CONFISCATED");
    reveal_strlit("WILDLIFE");
    reveal_strlit("FOUND");
    reveal_strlit("FOUND REPORT");
    reveal_strlit("FOUND_REPORT");
    assert("STRAY"@[0] == 'S' && "FIELD"@[1] == 'I' && "CONFISCATED"@[0] == 'C' && "WILDLIFE"@[0]
        == 'W' && "FOUND"@[1] == 'O' && "FOUND REPORT"@[1] == 'O' && "FOUND_REPORT"@[1] == 'O'
        && "FIELD"@[0] == 'F' && "FOUND"@[0] == 'F' && "FOUND REPORT"@[0] == 'F'
        && "FOUND_REPORT"@[0] == 'F');
}

/// A date is read as RFC 3339 where it is that, with a space for the `T` or
/// without; else as a date and time in UTC by the first form that fits; else as the
/// start of a day.
pub proof fn dates_are_read_by_the_first_form_that_fits(s: Seq<char>)
    ensures
        ({
            let t = text::replaced_first(s, ' ', 'T');
            &&& time::rfc3339_instant(t) matches Ok(m) ==> ods_instant(s) == Some(m)
            &&& time::rfc3339_instant(t) is Err ==> (match time::formatted_instant(
                t,
                "%Y-%m-%dT%H:%M:%S%.f"@,
            ) {
                Some(m) => ods_instant(s) == Some(m),
                None => match time::formatted_instant(t, "%Y-%m-%dT%H:%M:%S"@) {
                    Some(m) => ods_instant(s) == Some(m),
                    None => match time::formatted_instant(t, "%Y-%m-%d"@) {
                        Some(m) => ods_instant(s) == Some(m),
                        None => ods_instant(s) == time::formatted_day(s, "%Y-%m-%d"@),
                    },
                },
            })
        }),
{
}

/// A record of a stray becomes the record of its animal, each part from the field
/// that the source maps to it; any other becomes none. The animal came in when the
/// intake column says, or else when the portal last touched the record; it was seen
/// then, where that is known, and else now; it is confirmed now; and it has no photo
/// and no location of its own.
pub proof fn portal_records_become_records(
    record: OdsRecordView,
    config: OdsConfigView,
    id: u128,
    now: Moment,
)
    ensures
        ({
            let cm = config.column_map;
            let fields = record.fields;
            let stray = json::cell_of(fields, cm.intake_type) matches Some(v) && stray::is_stray(v);
            let by_column = match json::opt_cell_of(fields, cm.intake_date) {
                Some(v) => ods_instant(v),
                None => None,
            };
            let by_portal = match record.timestamp {
                Some(v) => ods_instant(v),
                None => None,
            };
            match ods_record(record, config, id, now) {
                Ok(None) => !stray,
                Err(e) => stray && socrata::species_of(
                    match json::cell_of(fields, cm.animal_type) {
                        Some(v) => v,
                        None => "unknown"@,
                    },
                ) == Err::<Species, ConnectorErrorView>(e),
                Ok(Some(rec)) => {
                    &&& stray
                    &&& rec.canonical_id == id
                    &&& rec.source.name == config.name
                    &&& rec.source.tos_class == TosClass::OpenData
                    &&& rec.source_animal_id == json::cell_of(fields, cm.animal_id)
                    &&& socrata::species_of(
                        match json::cell_of(fields, cm.animal_type) {
                            Some(v) => v,
                            None => "unknown"@,
                        },
                    ) == Ok::<Species, ConnectorErrorView>(rec.species)
                    &&& rec.breed_primary == json::opt_cell_of(fields, cm.breed)
                    &&& rec.colors == (match json::opt_cell_of(fields, cm.color) {
                        Some(v) => seq![v],
                        None => Seq::empty(),
                    })
                    &&& json::cell_of(fields, cm.intake_type) matches Some(v) ==> rec.intake_type
                        == ods_intake_type(v)
                    &&& rec.availability == socrata::soda_availability(fields, cm)
                    &&& rec.chip_status == (match json::opt_cell_of(fields, cm.chip_status) {
                        Some(v) => socrata::chip_status_of(v),
                        None => ChipStatusView::Unknown,
                    })
                    &&& rec.found_location_text == json::opt_cell_of(fields, cm.found_location)
                    &&& by_column is Some ==> rec.intake_date == by_column
                    &&& by_column is None ==> rec.intake_date == by_portal
                    &&& rec.outcome_date == (match json::opt_cell_of(fields, cm.outcome_date) {
                        Some(v) => ods_instant(v),
                        None => None,
                    })
                    &&& rec.intake_date matches Some(m) ==> rec.first_seen == m && rec.last_seen == m
                    &&& rec.intake_date is None ==> rec.first_seen == now && rec.last_seen == now
                    &&& rec.last_confirmed == Some(now)
                    &&& rec.location is None
                    &&& rec.photos.len() == 0
                    &&& rec.breed_secondary is None
                    &&& rec.sex is None
                    &&& rec.age_bucket is None
                    &&& rec.size is None
                    &&& rec.markings_text is None
                    &&& rec.secondary_provenances.len() == 0
                },
            }
        }),
{
    lemma_blank_is_no_stray();
}

proof fn lemma_blank_is_no_stray()
    ensures
        !stray::is_stray(""@),
{
    reveal_strlit("");
    text::trimming_keeps_the_rest(""@);
    stray::strays_go_by_six_words(""@);
    assert(text::uppercase(""@).len() == 0);
    reveal_strlit("STRAY");
    reveal_strlit("FOUND");
    reveal_strlit("STRAY INCOMING");
    reveal_strlit("FIELD");
    reveal_strlit("CONFISCATED");
    reveal_strlit("WILDLIFE");
}

/// A page gives one record for each result that has one, in their order, and none
/// for the others.
pub proof fn one_more_result_is_one_more_record(
    results: Seq<OdsRecordView>,
    result: OdsRecordView,
    config: OdsConfigView,
    stamps: Seq<Stamp>,
)
    ensures
        ({
            let stamp = stamps[results.len() as int];
            ods_records(results.push(result), config, stamps) == (match ods_record(
                result,
                config,
                stamp.id,
                stamp.now@,
            ) {
                Ok(Some(rec)) => ods_records(results, config, stamps).push(rec),
                _ => ods_records(results, config, stamps),
            })
        }),
        ods_records(Seq::empty(), config, stamps).len() == 0,
{
    assert(results.push(result).drop_last() =~= results);
}

/// The fields of a dataset are the names in the list of fields of its metadata, in
/// order, and its sample is the fields of the first record of a page.
pub proof fn probes_read_fields_and_samples(
    items: Seq<Json>,
    item: Json,
    document: Json,
    first: Json,
    rest: Seq<Json>,
)
    ensures
        names_of(items.push(item)) == (match json::cell_of(item, "name"@) {
            Some(name) => names_of(items).push(name),
            None => names_of(items),
        }),
        names_of(Seq::empty()).len() == 0,
        json::member(document, "fields"@) == Some(Json::List(items)) ==> field_names(document)
            == names_of(items),
        json::member(document, "results"@) == Some(Json::List(seq![first] + rest)) ==> first_fields(
            document,
        ) == (match json::member(first, "record"@) {
            Some(record) => match json::member(record, "fields"@) {
                Some(fields) => fields,
                None => Json::Null,
            },
            None => Json::Null,
        }),
        json::member(document, "results"@) is None ==> first_fields(document) == Json::Null,
{
    assert(items.push(item).drop_last() =~= items);
    assert((seq![first] + rest)[0] == first);
}

} // verus!
