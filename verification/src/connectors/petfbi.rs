//! Pet FBI connector: lost and found reports from the Pet FBI widget feed.
//!
//! One feed covers Pet FBI, Helping Lost Pets, and Lost Dogs and Lost Cats of
//! America, which share a database. Each report names the network it comes
//! from, and its record is credited to that network. Photos are linked, never
//! fetched.

use url::Url;
use vstd::prelude::*;

use crate::connectors::rescuegroups;
use crate::error;
use crate::error::{ConnectorError, ConnectorErrorView};
use crate::outcome;
use crate::schema;
use crate::schema::{
    AgeBucket, Availability, ChipStatus, ChipStatusView, IntakeType, PetRecord, PetRecordView,
    PhotoRef, PhotoRefView, Provenance, ProvenanceView, Sex, Size, SourceId, SourceIdView, Species,
    Stamp, TosClass,
};
use crate::span;
use crate::text;
use crate::time;
use crate::time::{Moment, Timestamp};
use crate::web;

verus! {

/// Base URL for the Pet FBI API.
pub const BASE_URL: &'static str = "https://petfbi.org/api";

/// The pause between requests to the source, in milliseconds.
pub const MIN_INTERVAL_MS: u64 = 2000;

/// Source name slug for Pet FBI.
pub const SOURCE_PETFBI: &'static str = "petfbi";

/// Source name slug for Helping Lost Pets.
pub const SOURCE_HELPINGLOSTPETS: &'static str = "helpinglostpets";

/// Configuration for the Pet FBI connector.
#[derive(Debug, Clone, PartialEq, Eq)]
pub struct PetFbiConfig {
    /// `data-file` UUID issued by Pet FBI Central (treated as credential).
    pub data_file: String,
    /// Optional species filter (`"dog"`, `"cat"`, or `None` for all).
    pub species_filter: Option<String>,
    /// Base URL.
    pub base_url: String,
}

impl PetFbiConfig {
    /// The configuration for a credential; nothing where none is set, so that
    /// callers can leave the source out.
    pub fn from_env(data_file: Option<String>) -> (res: Option<Self>)
        ensures
            match data_file {
                Some(id) => res matches Some(config) && config.data_file == id
                    && config.species_filter is None && config.base_url@ == BASE_URL@,
                None => res is None,
            },
    {
        match data_file {
            Some(data_file) => Some(
                PetFbiConfig { data_file, species_filter: None, base_url: BASE_URL.to_owned() },
            ),
            None => None,
        }
    }
}

// ---------------------------------------------------------------------------
// Reports
// ---------------------------------------------------------------------------

/// A single report from the Pet FBI widget feed.
pub struct PfbReport {
    /// Feed-assigned report ID.
    pub id: String,
    /// Report type: `"lost"` or `"found"`.
    pub report_type: String,
    /// Source network: `"petfbi"` or `"helpinglostpets"`.
    pub source: String,
    /// Species string (`"dog"`, `"cat"`).
    pub species: String,
    /// Primary breed.
    pub breed: Option<String>,
    /// Secondary breed.
    pub secondary_breed: Option<String>,
    /// Sex string.
    pub sex: Option<String>,
    /// Age string.
    pub age: Option<String>,
    /// Size string.
    pub size: Option<String>,
    /// Color list.
    pub colors: Vec<String>,
    /// Free-form description.
    pub description: Option<String>,
    /// Primary photo URL (hotlink only).
    pub photo_url: Option<String>,
    /// City where last seen / found.
    pub city: Option<String>,
    /// State (two-letter US code).
    pub state: Option<String>,
    /// When the pet was lost (ISO 8601).
    pub date_lost: Option<String>,
    /// When the pet was found (ISO 8601).
    pub date_found: Option<String>,
    /// When the report was created (ISO 8601).
    pub date_created: Option<String>,
}

/// The model of a [`PfbReport`].
pub struct PfbReportView {
    /// Feed-assigned report ID.
    pub id: Seq<char>,
    /// Report type.
    pub report_type: Seq<char>,
    /// Source network.
    pub source: Seq<char>,
    /// Species string.
    pub species: Seq<char>,
    /// Primary breed.
    pub breed: Option<Seq<char>>,
    /// Secondary breed.
    pub secondary_breed: Option<Seq<char>>,
    /// Sex string.
    pub sex: Option<Seq<char>>,
    /// Age string.
    pub age: Option<Seq<char>>,
    /// Size string.
    pub size: Option<Seq<char>>,
    /// Color list.
    pub colors: Seq<Seq<char>>,
    /// Free-form description.
    pub description: Option<Seq<char>>,
    /// Primary photo URL.
    pub photo_url: Option<Seq<char>>,
    /// City where last seen / found.
    pub city: Option<Seq<char>>,
    /// State.
    pub state: Option<Seq<char>>,
    /// When the pet was lost.
    pub date_lost: Option<Seq<char>>,
    /// When the pet was found.
    pub date_found: Option<Seq<char>>,
    /// When the report was created.
    pub date_created: Option<Seq<char>>,
}

impl DeepView for PfbReport {
    type V = PfbReportView;

    open spec fn deep_view(&self) -> PfbReportView {
        PfbReportView {
            id: self.id@,
            report_type: self.report_type@,
            source: self.source@,
            species: self.species@,
            breed: self.breed.deep_view(),
            secondary_breed: self.secondary_breed.deep_view(),
            sex: self.sex.deep_view(),
            age: self.age.deep_view(),
            size: self.size.deep_view(),
            colors: self.colors.deep_view(),
            description: self.description.deep_view(),
            photo_url: self.photo_url.deep_view(),
            city: self.city.deep_view(),
            state: self.state.deep_view(),
            date_lost: self.date_lost.deep_view(),
            date_found: self.date_found.deep_view(),
            date_created: self.date_created.deep_view(),
        }
    }
}

/// One page of reports.
pub struct PfbPage {
    /// How many reports there are in all.
    pub total: u64,
    /// The reports of this page.
    pub reports: Vec<PfbReport>,
}

// ---------------------------------------------------------------------------
// Normalization
// ---------------------------------------------------------------------------

/// The source that a network's name stands for.
pub open spec fn source_of(source: Seq<char>) -> SourceIdView {
    let word = text::lowercase(source);
    SourceIdView {
        name: if word == "helpinglostpets"@ || word == "help"@ {
            SOURCE_HELPINGLOSTPETS@
        } else {
            SOURCE_PETFBI@
        },
        tos_class: TosClass::NonprofitAttributionRequired,
    }
}

/// Derives the source from the report's own network.
pub fn source_id_from_str(source: &str) -> (res: SourceId)
    ensures
        res.deep_view() == source_of(source@),
{
    let word = text::lower(source);
    if text::same(&word, "helpinglostpets") || text::same(&word, "help") {
        SourceId::new(SOURCE_HELPINGLOSTPETS, TosClass::NonprofitAttributionRequired)
    } else {
        SourceId::new(SOURCE_PETFBI, TosClass::NonprofitAttributionRequired)
    }
}

/// The sex that a word names.
pub fn parse_pfb_sex(s: &str) -> (res: Sex)
    ensures
        res == rescuegroups::sex_of(s@),
{
    rescuegroups::parse_sex(s)
}

/// The age that a word names.
pub open spec fn pfb_age(s: Seq<char>) -> Option<AgeBucket> {
    let word = text::lowercase(s);
    if word == "baby"@ || word == "puppy"@ || word == "kitten"@ {
        Some(AgeBucket::Baby)
    } else if word == "young"@ || word == "juvenile"@ {
        Some(AgeBucket::Young)
    } else if word == "adult"@ {
        Some(AgeBucket::Adult)
    } else if word == "senior"@ || word == "older"@ {
        Some(AgeBucket::Senior)
    } else {
        None
    }
}

/// The age that a word names.
pub fn parse_pfb_age(s: &str) -> (res: Option<AgeBucket>)
    ensures
        res == pfb_age(s@),
{
    let word = text::lower(s);
    if text::same(&word, "baby") || text::same(&word, "puppy") || text::same(&word, "kitten") {
        Some(AgeBucket::Baby)
    } else if text::same(&word, "young") || text::same(&word, "juvenile") {
        Some(AgeBucket::Young)
    } else if text::same(&word, "adult") {
        Some(AgeBucket::Adult)
    } else if text::same(&word, "senior") || text::same(&word, "older") {
        Some(AgeBucket::Senior)
    } else {
        None
    }
}

/// The size that a word names.
pub open spec fn pfb_size(s: Seq<char>) -> Option<Size> {
    let word = text::lowercase(s);
    if word == "extra large"@ || word == "x-large"@ || word == "xlarge"@ || word == "xl"@ {
        Some(Size::ExtraLarge)
    } else if word == "large"@ || word == "l"@ {
        Some(Size::Large)
    } else if word == "medium"@ || word == "m"@ {
        Some(Size::Medium)
    } else if word == "small"@ || word == "s"@ {
        Some(Size::Small)
    } else {
        None
    }
}

/// The size that a word names.
pub fn parse_pfb_size(s: &str) -> (res: Option<Size>)
    ensures
        res == pfb_size(s@),
{
    let word = text::lower(s);
    if text::same(&word, "extra large") || text::same(&word, "x-large") || text::same(
        &word,
        "xlarge",
    ) || text::same(&word, "xl") {
        Some(Size::ExtraLarge)
    } else if text::same(&word, "large") || text::same(&word, "l") {
        Some(Size::Large)
    } else if text::same(&word, "medium") || text::same(&word, "m") {
        Some(Size::Medium)
    } else if text::same(&word, "small") || text::same(&word, "s") {
        Some(Size::Small)
    } else {
        None
    }
}

/// City and state in words, as far as they are known.
pub open spec fn place_of(city: Option<Seq<char>>, state: Option<Seq<char>>) -> Option<Seq<char>> {
    match (city, state) {
        (Some(c), Some(s)) => Some(c + ", "@ + s),
        (Some(c), None) => Some(c),
        (None, Some(s)) => Some(s),
        (None, None) => None,
    }
}

fn write_place(city: &Option<String>, state: &Option<String>) -> (res: Option<String>)
    ensures
        res.deep_view() == place_of(city.deep_view(), state.deep_view()),
{
    match city {
        Some(c) => match state {
            Some(s) => Some(c.clone().concat(", ").concat(s)),
            None => Some(c.clone()),
        },
        None => match state {
            Some(s) => Some(s.clone()),
            None => None,
        },
    }
}

/// The one photo of a report, credited to its network.
pub open spec fn photos_of(url: Option<Seq<char>>, source: SourceIdView) -> Seq<PhotoRefView> {
    match url {
        Some(url) => seq![
            PhotoRefView {
                url,
                attribution: Some("\u{a9} "@ + source.name),
                is_primary: true,
            },
        ],
        None => Seq::empty(),
    }
}

/// The record of a report that was read at `now`; an error where the species is
/// not known.
pub open spec fn pfb_record(report: PfbReportView, id: u128, now: Moment) -> Result<
    PetRecordView,
    ConnectorErrorView,
> {
    let event = rescuegroups::instant_or(
        if report.date_lost is Some {
            report.date_lost
        } else {
            report.date_found
        },
        now,
    );
    let source = source_of(report.source);
    let lost = report.report_type == "lost"@;
    match schema::strict_species(report.species) {
        None => Err(ConnectorErrorView::UnknownSpecies(report.species)),
        Some(species) => Ok(
            PetRecordView {
                canonical_id: id,
                source,
                source_animal_id: Some(report.id),
                species,
                breed_primary: report.breed,
                breed_secondary: report.secondary_breed,
                sex: match report.sex {
                    Some(s) => Some(rescuegroups::sex_of(s)),
                    None => None,
                },
                age_bucket: match report.age {
                    Some(s) => pfb_age(s),
                    None => None,
                },
                size: match report.size {
                    Some(s) => pfb_size(s),
                    None => None,
                },
                colors: report.colors,
                markings_text: report.description,
                intake_type: if lost {
                    IntakeType::LostReport
                } else {
                    IntakeType::FoundReport
                },
                availability: if lost {
                    Availability::Missing
                } else {
                    Availability::Available
                },
                chip_status: ChipStatusView::Unknown,
                location: None,
                found_location_text: place_of(report.city, report.state),
                photos: photos_of(report.photo_url, source),
                first_seen: rescuegroups::instant_or(report.date_created, event),
                last_seen: event,
                last_confirmed: Some(now),
                intake_date: None,
                outcome_date: None,
                secondary_provenances: Seq::empty(),
            },
        ),
    }
}

/// Normalizes one report that was read at the stamp's instant.
pub fn normalize_pfb_report_at(report: &PfbReport, stamp: &Stamp) -> (res: Result<
    PetRecord,
    ConnectorError,
>)
    ensures
        outcome::of(res) == pfb_record(report.deep_view(), stamp.id, stamp.now@),
{
    let species = match Species::from_str_strict(&report.species) {
        Some(v) => v,
        None => return Err(ConnectorError::UnknownSpecies(report.species.clone())),
    };
    let event = match &report.date_lost {
        Some(_) => rescuegroups::read_instant_or(&report.date_lost, stamp.now),
        None => rescuegroups::read_instant_or(&report.date_found, stamp.now),
    };
    let first_seen = rescuegroups::read_instant_or(&report.date_created, event);
    let sex = match &report.sex {
        Some(s) => Some(parse_pfb_sex(s)),
        None => None,
    };
    let age_bucket = match &report.age {
        Some(s) => parse_pfb_age(s),
        None => None,
    };
    let size = match &report.size {
        Some(s) => parse_pfb_size(s),
        None => None,
    };
    let source = source_id_from_str(&report.source);
    let lost = text::same(&report.report_type, "lost");
    let found_location_text = write_place(&report.city, &report.state);
    let photos = match &report.photo_url {
        Some(url) => vec![
            PhotoRef {
                url: url.clone(),
                attribution: Some("\u{a9} ".to_owned().concat(&source.name)),
                is_primary: true,
            },
        ],
        None => Vec::new(),
    };
    proof {
        assert(photos.deep_view() =~= photos_of(report.photo_url.deep_view(), source.deep_view()));
    }
    let rec = PetRecord {
        canonical_id: stamp.id,
        source,
        source_animal_id: Some(report.id.clone()),
        species,
        breed_primary: rescuegroups::copy(&report.breed),
        breed_secondary: rescuegroups::copy(&report.secondary_breed),
        sex,
        age_bucket,
        size,
        colors: report.colors.clone(),
        markings_text: rescuegroups::copy(&report.description),
        intake_type: if lost {
            IntakeType::LostReport
        } else {
            IntakeType::FoundReport
        },
        availability: if lost {
            Availability::Missing
        } else {
            Availability::Available
        },
        chip_status: ChipStatus::Unknown,
        location: None,
        found_location_text,
        photos,
        first_seen,
        last_seen: event,
        last_confirmed: Some(stamp.now),
        intake_date: None,
        outcome_date: None,
        secondary_provenances: Vec::new(),
    };
    proof {
        assert(rec.colors.deep_view() =~= report.colors.deep_view());
        assert(rec.secondary_provenances.deep_view() =~= Seq::empty());
    }
    Ok(rec)
}

/// Normalizes one report, with a fresh identifier and the current instant.
pub fn normalize_pfb_report(report: PfbReport) -> (res: Result<PetRecord, ConnectorError>)
    ensures
        exists|id: u128, now: Moment|
            time::clock_shows(now) && outcome::of(res) == #[trigger] pfb_record(
                report.deep_view(),
                id,
                now,
            ),
{
    let stamp = Stamp::fresh();
    normalize_pfb_report_at(&report, &stamp)
}

// ---------------------------------------------------------------------------
// Polling
// ---------------------------------------------------------------------------

/// The two kinds of reports, in the order in which they are asked for.
pub const REPORT_TYPES: [&'static str; 2] = ["lost", "found"];

/// The address of the reports of one kind.
pub open spec fn reports_url(
    base_url: Seq<char>,
    data_file: Seq<char>,
    species: Option<Seq<char>>,
    report_type: Seq<char>,
) -> Seq<char> {
    let url = base_url + "/reports?data_file="@ + data_file + "&type="@ + report_type;
    match species {
        Some(s) => url + "&species="@ + s,
        None => url,
    }
}

/// The records of the reports that can be normalized, in order; the other
/// reports are skipped.
pub open spec fn pfb_records(reports: Seq<PfbReportView>, stamps: Seq<Stamp>) -> Seq<PetRecordView>
    decreases reports.len(),
{
    if reports.len() == 0 {
        Seq::empty()
    } else {
        let before = pfb_records(reports.drop_last(), stamps);
        let stamp = stamps[reports.len() - 1];
        match pfb_record(reports.last(), stamp.id, stamp.now@) {
            Ok(rec) => before.push(rec),
            Err(_) => before,
        }
    }
}

/// Where records of this source come from.
pub open spec fn pfb_provenance(now: Moment) -> ProvenanceView {
    ProvenanceView {
        source: SourceIdView {
            name: SOURCE_PETFBI@,
            tos_class: TosClass::NonprofitAttributionRequired,
        },
        fetched_at: now,
        source_url: Some("https://petfbi.org"@),
        source_etag: None,
    }
}

/// Connector for the Pet FBI report widget feed.
pub struct PetFbiConnector {
    /// Credential and address.
    pub config: PetFbiConfig,
}

impl PetFbiConnector {
    /// A connector with this credential and address.
    pub fn new(config: PetFbiConfig) -> (res: Self)
        ensures
            res.config == config,
    {
        PetFbiConnector { config }
    }

    /// Builds the Pet FBI API URL for a given report type.
    pub fn build_url(&self, report_type: &str) -> (res: Result<Url, ConnectorError>)
        ensures
            error::url_outcome(res) == error::url_result(
                web::parsed(
                    reports_url(
                        self.config.base_url@,
                        self.config.data_file@,
                        self.config.species_filter.deep_view(),
                        report_type@,
                    ),
                ),
            ),
    {
        let url = self.config.base_url.clone().concat("/reports?data_file=").concat(
            &self.config.data_file,
        ).concat("&type=").concat(report_type);
        let url = match &self.config.species_filter {
            Some(s) => url.concat("&species=").concat(s),
            None => url,
        };
        error::url_or_error(web::parse(&url))
    }

    /// The version tag to send with a request: none, or one that is not empty.
    pub fn if_none_match(etag: Option<String>) -> (res: Option<String>)
        ensures
            res == (match etag {
                Some(e) => if e@.len() > 0 {
                    Some(e)
                } else {
                    None
                },
                None => None,
            }),
    {
        match etag {
            Some(e) => if e.as_str().is_empty() {
                None
            } else {
                Some(e)
            },
            None => None,
        }
    }

    /// Where records come from that were fetched at `now`.
    pub fn provenance_at(&self, now: Timestamp) -> (res: Provenance)
        ensures
            res.deep_view() == pfb_provenance(now@),
    {
        Provenance {
            source: SourceId::new(SOURCE_PETFBI, TosClass::NonprofitAttributionRequired),
            fetched_at: now,
            source_url: Some("https://petfbi.org".to_owned()),
            source_etag: None,
        }
    }

    /// Where records come from that are fetched now.
    pub fn provenance(&self) -> (res: Provenance)
        ensures
            res.deep_view() == pfb_provenance(res.fetched_at@),
            time::clock_shows(res.fetched_at@),
    {
        self.provenance_at(time::now())
    }

    /// How often to poll: every six hours.
    pub fn cadence_hint(&self) -> (res: std::time::Duration)
        ensures
            span::nanos_of(res) == 6 * 3600 * 1_000_000_000,
    {
        std::time::Duration::from_secs(6 * 3600)
    }

    /// Begins a poll. The feed is read whole, whatever was read before.
    pub fn start_poll(&self) -> (res: PetFbiPoll)
        ensures
            res.report_type == 0,
            res.records@.len() == 0,
            !res.is_done(),
    {
        PetFbiPoll { report_type: 0, records: Vec::new() }
    }
}

/// A poll under way: what is still to be fetched and what has been gathered.
pub struct PetFbiPoll {
    /// The place in [`REPORT_TYPES`] of the kind of reports that is asked for
    /// next; past the end when both have been read.
    pub report_type: usize,
    /// The records so far.
    pub records: Vec<PetRecord>,
}

impl PetFbiPoll {
    /// Whether both kinds of reports have been read.
    pub open spec fn is_done(&self) -> bool {
        self.report_type >= REPORT_TYPES@.len()
    }

    /// Whether both kinds of reports have been read.
    pub fn done(&self) -> (res: bool)
        ensures
            res == self.is_done(),
    {
        self.report_type >= REPORT_TYPES.len()
    }

    /// The URL of the next kind of reports.
    pub fn next_url(&self, connector: &PetFbiConnector) -> (res: Result<Url, ConnectorError>)
        requires
            !self.is_done(),
        ensures
            error::url_outcome(res) == error::url_result(
                web::parsed(
                    reports_url(
                        connector.config.base_url@,
                        connector.config.data_file@,
                        connector.config.species_filter.deep_view(),
                        REPORT_TYPES@[self.report_type as int]@,
                    ),
                ),
            ),
    {
        connector.build_url(REPORT_TYPES[self.report_type])
    }

    /// Takes in the reports of one kind. A reply that says nothing has changed
    /// counts as a page without reports.
    pub fn absorb(&mut self, page: &PfbPage, stamps: &Vec<Stamp>)
        requires
            !old(self).is_done(),
            stamps.len() == page.reports.len(),
        ensures
            final(self).report_type == old(self).report_type + 1,
            final(self).records.deep_view() == old(self).records.deep_view() + pfb_records(
                page.reports.deep_view(),
                stamps@,
            ),
    {
        let reports = &page.reports;
        let ghost all = reports.deep_view();
        let ghost before = self.records.deep_view();
        let mut i: usize = 0;
        while i < reports.len()
            invariant
                i <= reports.len(),
                reports == page.reports,
                stamps.len() == reports.len(),
                all == reports.deep_view(),
                self.report_type == old(self).report_type,
                before == old(self).records.deep_view(),
                self.records.deep_view() =~= before + pfb_records(all.take(i as int), stamps@),
            decreases reports.len() - i,
        {
            proof {
                assert(all.take(i + 1).drop_last() == all.take(i as int));
                assert(all.take(i + 1).last() == reports@[i as int].deep_view());
            }
            match normalize_pfb_report_at(&reports[i], &stamps[i]) {
                Ok(rec) => {
                    let ghost sofar = self.records.deep_view();
                    self.records.push(rec);
                    proof {
                        assert(self.records.deep_view() =~= sofar.push(rec.deep_view()));
                    }
                },
                Err(_) => {},
            }
            i += 1;
        }
        proof {
            assert(all.take(reports.len() as int) == all);
        }
        self.report_type = self.report_type + 1;
    }
}

// ---------------------------------------------------------------------------
// Laws
// ---------------------------------------------------------------------------

/// Every record is credited to one of the two networks, under terms that ask
/// for attribution, and every photo names whom to credit.
pub proof fn records_are_credited(report: PfbReportView, id: u128, now: Moment)
    requires
        pfb_record(report, id, now) is Ok,
    ensures
        ({
            let rec = pfb_record(report, id, now)->Ok_0;
            &&& rec.source.name == SOURCE_PETFBI@ || rec.source.name == SOURCE_HELPINGLOSTPETS@
            &&& rec.source.tos_class == TosClass::NonprofitAttributionRequired
            &&& rec.photos.len() <= 1
            &&& forall|i: int|
                0 <= i < rec.photos.len() ==> (#[trigger] rec.photos[i]).attribution == Some(
                    "\u{a9} "@ + rec.source.name,
                )
        }),
{
}

/// A page without reports, which a reply that says nothing has changed counts
/// as, adds no record.
pub proof fn an_empty_page_adds_nothing(stamps: Seq<Stamp>)
    ensures
        pfb_records(Seq::empty(), stamps).len() == 0,
{
}

/// The two networks can be told apart.
pub proof fn networks_are_distinct()
    ensures
        source_of("petfbi"@).name != source_of("helpinglostpets"@).name,
{
    reveal_strlit("petfbi");
    reveal_strlit("helpinglostpets");
    reveal_strlit("help");
    assert(text::lowercase("petfbi"@) =~= "petfbi"@);
    assert(text::lowercase("helpinglostpets"@) =~= "helpinglostpets"@);
    assert("petfbi"@[0] == 'p');
    assert("helpinglostpets"@[0] == 'h');
    assert("help"@[0] == 'h');
}

/// A report names its network: `helpinglostpets` or `help`, in any case, for
/// Helping Lost Pets, and any other for Pet FBI. Both ask for attribution.
pub proof fn networks_go_by_their_names(source: Seq<char>)
    ensures
        ({
            let word = text::lowercase(source);
            &&& source_of(source).name == "helpinglostpets"@ <==> word == "helpinglostpets"@ || word
                == "help"@
            &&& source_of(source).name == "petfbi"@ <==> word != "helpinglostpets"@ && word
                != "help"@
            &&& source_of(source).tos_class == TosClass::NonprofitAttributionRequired
        }),
{
    reveal_strlit("petfbi");
    reveal_strlit("helpinglostpets");
    assert("petfbi"@[0] == 'p' && "helpinglostpets"@[0] == 'h');
}

/// The ages that words name, in any case; another word names none.
pub proof fn ages_go_by_their_words(s: Seq<char>)
    ensures
        ({
            let word = text::lowercase(s);
            &&& pfb_age(s) == Some(AgeBucket::Baby) <==> word == "baby"@ || word == "puppy"@ || word
                == "kitten"@
            &&& pfb_age(s) == Some(AgeBucket::Young) <==> word == "young"@ || word == "juvenile"@
            &&& pfb_age(s) == Some(AgeBucket::Adult) <==> word == "adult"@
            &&& pfb_age(s) == Some(AgeBucket::Senior) <==> word == "senior"@ || word == "older"@
        }),
{
    reveal_strlit("baby");
    reveal_strlit("puppy");
    reveal_strlit("kitten");
    reveal_strlit("young");
    reveal_strlit("juvenile");
    reveal_strlit("adult");
    reveal_strlit("senior");
    reveal_strlit("older");
    assert("baby"@[0] == 'b' && "puppy"@[0] == 'p' && "kitten"@[0] == 'k' && "young"@[0] == 'y'
        && "juvenile"@[0] == 'j' && "adult"@[0] == 'a' && "senior"@[0] == 's' && "older"@[0]
        == 'o');
}

/// The sizes that words name, in any case; another word names none.
pub proof fn sizes_go_by_their_words(s: Seq<char>)
    ensures
        ({
            let word = text::lowercase(s);
            &&& pfb_size(s) == Some(Size::ExtraLarge) <==> word == "extra large"@ || word
                == "x-large"@ || word == "xlarge"@ || word == "xl"@
            &&& pfb_size(s) == Some(Size::Large) <==> word == "large"@ || word == "l"@
            &&& pfb_size(s) == Some(Size::Medium) <==> word == "medium"@ || word == "m"@
            &&& pfb_size(s) == Some(Size::Small) <==> word == "small"@ || word == "s"@
        }),
{
    reveal_strlit("extra large");
    reveal_strlit("x-large");
    reveal_strlit("xlarge");
    reveal_strlit("xl");
    reveal_strlit("large");
    reveal_strlit("l");
    reveal_strlit("medium");
    reveal_strlit("m");
    reveal_strlit("small");
    reveal_strlit("s");
    assert("extra large"@[0] == 'e' && "x-large"@[0] == 'x' && "xlarge"@[0] == 'x' && "xl"@[0] == 'x'
        && "large"@[0] == 'l' && "l"@[0] == 'l' && "medium"@[0] == 'm' && "m"@[0] == 'm'
        && "small"@[0] == 's' && "s"@[0] == 's');
}

/// A report becomes the record of its animal. One of type `lost` is of an animal
/// that is missing; any other is a found report of an animal that is there. It was
/// last seen when it was lost, or else found, as far as that is told and readable,
/// and else now; it was first seen when the report was made, as far as that is told
/// and readable, and else when it was last seen. It is confirmed now.
pub proof fn reports_become_records(report: PfbReportView, id: u128, now: Moment)
    ensures
        ({
            let told = match report.date_lost {
                Some(s) => Some(s),
                None => report.date_found,
            };
            match pfb_record(report, id, now) {
                Err(e) => {
                    &&& report.species != "dog"@ && report.species != "cat"@
                    &&& e == ConnectorErrorView::UnknownSpecies(report.species)
                },
                Ok(rec) => {
                    &&& rec.species == Species::Dog ==> report.species == "dog"@
                    &&& rec.species == Species::Cat ==> report.species == "cat"@
                    &&& rec.canonical_id == id
                    &&& rec.source == source_of(report.source)
                    &&& rec.source_animal_id == Some(report.id)
                    &&& rec.breed_primary == report.breed
                    &&& rec.breed_secondary == report.secondary_breed
                    &&& rec.colors == report.colors
                    &&& rec.markings_text == report.description
                    &&& report.sex matches Some(s) ==> rec.sex == Some(rescuegroups::sex_of(s))
                    &&& report.sex is None ==> rec.sex is None
                    &&& report.age matches Some(s) ==> rec.age_bucket == pfb_age(s)
                    &&& report.age is None ==> rec.age_bucket is None
                    &&& report.size matches Some(s) ==> rec.size == pfb_size(s)
                    &&& report.size is None ==> rec.size is None
                    &&& report.report_type == "lost"@ ==> rec.intake_type == IntakeType::LostReport
                        && rec.availability == Availability::Missing
                    &&& report.report_type != "lost"@ ==> rec.intake_type == IntakeType::FoundReport
                        && rec.availability == Availability::Available
                    &&& rec.chip_status == ChipStatusView::Unknown
                    &&& rec.location is None
                    &&& rec.found_location_text == (match (report.city, report.state) {
                        (Some(c), Some(s)) => Some(c + seq![',', ' '] + s),
                        (Some(c), None) => Some(c),
                        (None, Some(s)) => Some(s),
                        (None, None) => None,
                    })
                    &&& report.photo_url matches Some(url) ==> rec.photos.len() == 1
                        && rec.photos[0].url == url && rec.photos[0].is_primary
                    &&& report.photo_url is None ==> rec.photos.len() == 0
                    &&& (told matches Some(s) && time::rfc3339_instant(s) is Ok) ==> rec.last_seen
                        == time::rfc3339_instant(told->0)->Ok_0
                    &&& !(told matches Some(s) && time::rfc3339_instant(s) is Ok) ==> rec.last_seen
                        == now
                    &&& (report.date_created matches Some(s) && time::rfc3339_instant(s) is Ok)
                        ==> rec.first_seen == time::rfc3339_instant(report.date_created->0)->Ok_0
                    &&& !(report.date_created matches Some(s) && time::rfc3339_instant(s) is Ok)
                        ==> rec.first_seen == rec.last_seen
                    &&& rec.last_confirmed == Some(now)
                    &&& rec.intake_date is None
                    &&& rec.outcome_date is None
                    &&& rec.secondary_provenances.len() == 0
                },
            }
        }),
{
    reveal_strlit(", ");
    reveal_strlit("dog");
    reveal_strlit("cat");
    assert(", "@ =~= seq![',', ' ']);
    assert("dog"@[0] == 'd' && "cat"@[0] == 'c');
}

/// The lost reports are asked for first and then the found ones, with the data file
/// and, where one is set, the species.
pub proof fn reports_are_asked_for_by_kind(
    base_url: Seq<char>,
    data_file: Seq<char>,
    species: Seq<char>,
    kind: Seq<char>,
)
    ensures
        REPORT_TYPES@.len() == 2,
        REPORT_TYPES@[0]@ == "lost"@,
        REPORT_TYPES@[1]@ == "found"@,
        reports_url(base_url, data_file, None, kind) == base_url + "/reports?data_file="@
            + data_file + "&type="@ + kind,
        reports_url(base_url, data_file, Some(species), kind) == reports_url(
            base_url,
            data_file,
            None,
            kind,
        ) + "&species="@ + species,
{
}

/// A page gives one record for each report that can be normalized, in their order,
/// and none for the others.
pub proof fn one_more_report_is_one_more_record(
    reports: Seq<PfbReportView>,
    report: PfbReportView,
    stamps: Seq<Stamp>,
)
    ensures
        ({
            let stamp = stamps[reports.len() as int];
            pfb_records(reports.push(report), stamps) == (match pfb_record(
                report,
                stamp.id,
                stamp.now@,
            ) {
                Ok(rec) => pfb_records(reports, stamps).push(rec),
                Err(_) => pfb_records(reports, stamps),
            })
        }),
{
    assert(reports.push(report).drop_last() =~= reports);
}

} // verus!
