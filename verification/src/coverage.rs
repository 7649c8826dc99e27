//! The per-source coverage report.
//!
//! Reads the registered sources and, where a store is given, what the ingest
//! daemon has stored of each.
//!
//! | Constant | Value | Meaning |
//! |---|---|---|
//! | [`STALE_MULTIPLIER`] | 3 | A source is STALE when its last success exceeds its cadence × 3 |
//! | [`RECENT_WINDOW_SECS`] | 14400 | A source is LIVE if its last success is within 4 hours |

use vstd::prelude::*;

use crate::geo_coverage;
use crate::geo_coverage::{CellStats, GeoCoverageExtension, GeoHole, DOCUMENTED_GAPS};
use crate::query;
use crate::rank;
use crate::rank::Ranked;
use crate::registry::ConnectorRegistry;
use crate::schema::{PetRecord, PetRecordView};
use crate::table::Table;
use crate::text;
use crate::time;
use crate::time::{Moment, Timestamp};

verus! {

// ---------------------------------------------------------------------------
// Thresholds
// ---------------------------------------------------------------------------

/// A source is STALE when its last success is older than its cadence times this.
pub const STALE_MULTIPLIER: u32 = 3;

/// A source is LIVE if its last success is within this many seconds (4 hours).
pub const RECENT_WINDOW_SECS: u64 = 14400;

// ---------------------------------------------------------------------------
// Statuses
// ---------------------------------------------------------------------------

/// Operational status of a registered source.
#[derive(Debug, Clone, Copy, PartialEq, Eq, Structural)]
pub enum SourceStatus {
    /// Recent success and records present.
    Live,
    /// Last success older than the cadence allows.
    Stale,
    /// Registered but zero records ever ingested.
    Silent,
    /// Last poll errored.
    Unreachable,
    /// No store was provided; the status cannot be determined.
    Unknown,
}

/// The name of a status.
pub open spec fn status_name(status: SourceStatus) -> Seq<char> {
    match status {
        SourceStatus::Live => "LIVE"@,
        SourceStatus::Stale => "STALE"@,
        SourceStatus::Silent => "SILENT"@,
        SourceStatus::Unreachable => "UNREACHABLE"@,
        SourceStatus::Unknown => "UNKNOWN"@,
    }
}

impl SourceStatus {
    /// The name of the status.
    pub fn label(&self) -> (res: String)
        ensures
            res@ == status_name(*self),
    {
        let name = match self {
            SourceStatus::Live => "LIVE",
            SourceStatus::Stale => "STALE",
            SourceStatus::Silent => "SILENT",
            SourceStatus::Unreachable => "UNREACHABLE",
            SourceStatus::Unknown => "UNKNOWN",
        };
        name.to_owned()
    }
}

/// Per-source statistics of the store.
#[derive(Debug, Clone, PartialEq, Eq)]
pub struct SourceStats {
    /// Records linked to the source.
    pub record_count: u64,
    /// Those of them that are stray intakes.
    pub stray_count: u64,
    /// When a record of the source was last seen.
    pub last_seen: Option<Timestamp>,
    /// When the cursor last advanced: the last successful poll.
    pub last_cursor: Option<Timestamp>,
    /// Whether the source has a cursor at all.
    pub ever_polled: bool,
}

/// The instant that a stored text names, if it names one.
pub open spec fn stored_instant(text: Option<Seq<char>>) -> Option<Moment> {
    match text {
        Some(s) => match time::rfc3339_instant(s) {
            Ok(m) => Some(m),
            Err(_) => None,
        },
        None => None,
    }
}

/// A stored count; a negative one counts as none.
pub open spec fn stored_count(n: i64) -> int {
    if n < 0 {
        0
    } else {
        n as int
    }
}

fn read_instant(text: &Option<String>) -> (res: Option<Timestamp>)
    ensures
        res.deep_view() == stored_instant(text.deep_view()),
{
    match text {
        Some(s) => match time::read_rfc3339(s) {
            Ok(t) => Some(t),
            Err(_) => None,
        },
        None => None,
    }
}

fn read_count(n: i64) -> (res: u64)
    ensures
        res == stored_count(n),
{
    if n < 0 {
        0
    } else {
        n as u64
    }
}

impl SourceStats {
    /// Statistics from what the store answers about a source: two counts, the last
    /// time a record was seen, and the time at which the cursor was updated. The
    /// error of the first query that failed is handed on.
    pub fn from_store(
        record_count: Result<i64, String>,
        stray_count: Result<i64, String>,
        last_seen: Result<Option<String>, String>,
        cursor: Result<Option<String>, String>,
    ) -> (res: Result<SourceStats, String>)
        ensures
            match (record_count, stray_count, last_seen, cursor) {
                (Err(e), _, _, _) => res == Err::<SourceStats, String>(e),
                (Ok(_), Err(e), _, _) => res == Err::<SourceStats, String>(e),
                (Ok(_), Ok(_), Err(e), _) => res == Err::<SourceStats, String>(e),
                (Ok(_), Ok(_), Ok(_), Err(e)) => res == Err::<SourceStats, String>(e),
                (Ok(records), Ok(strays), Ok(seen), Ok(updated)) => {
                    &&& res is Ok
                    &&& res->Ok_0.record_count == stored_count(records)
                    &&& res->Ok_0.stray_count == stored_count(strays)
                    &&& res->Ok_0.last_seen.deep_view() == stored_instant(seen.deep_view())
                    &&& res->Ok_0.last_cursor.deep_view() == stored_instant(updated.deep_view())
                    &&& res->Ok_0.ever_polled == (updated is Some)
                },
            },
    {
        let records = record_count?;
        let strays = stray_count?;
        let seen = last_seen?;
        let updated = cursor?;
        Ok(
            SourceStats {
                record_count: read_count(records),
                stray_count: read_count(strays),
                last_seen: read_instant(&seen),
                last_cursor: read_instant(&updated),
                ever_polled: updated.is_some(),
            },
        )
    }
}

/// The last success of a source: when its cursor advanced or, where that is not
/// known, when a record was last seen.
pub open spec fn last_success(stats: SourceStats) -> Option<Moment> {
    match stats.last_cursor.deep_view() {
        Some(m) => Some(m),
        None => stats.last_seen.deep_view(),
    }
}

/// How many whole seconds ago something was; zero for the future.
pub open spec fn age(m: Moment, now: Moment) -> int {
    let secs = time::seconds_between(m, now);
    if secs < 0 {
        0
    } else {
        secs
    }
}

/// The status of a source. The rules apply in order: zero records are SILENT;
/// records without a cursor are STALE; a last success within the recent window
/// is LIVE; one older than the cadence times [`STALE_MULTIPLIER`] is STALE;
/// anything between is LIVE.
pub open spec fn status_of(stats: SourceStats, cadence_secs: int, now: Moment) -> SourceStatus {
    if stats.record_count == 0 {
        SourceStatus::Silent
    } else if !stats.ever_polled {
        SourceStatus::Stale
    } else {
        match last_success(stats) {
            None => SourceStatus::Stale,
            Some(m) => if age(m, now) <= RECENT_WINDOW_SECS {
                SourceStatus::Live
            } else if age(m, now) > cadence_secs * STALE_MULTIPLIER {
                SourceStatus::Stale
            } else {
                SourceStatus::Live
            },
        }
    }
}

fn success_of(stats: &SourceStats) -> (res: Option<Timestamp>)
    ensures
        res.deep_view() == last_success(*stats),
{
    match stats.last_cursor {
        Some(t) => Some(t),
        None => stats.last_seen,
    }
}

/// Derives the status of a source at a given instant.
pub fn derive_status_at(stats: &SourceStats, cadence_secs: u64, now: &Timestamp) -> (res:
    SourceStatus)
    ensures
        res == status_of(*stats, cadence_secs as int, now@),
{
    if stats.record_count == 0 {
        return SourceStatus::Silent;
    }
    if !stats.ever_polled {
        return SourceStatus::Stale;
    }
    match success_of(stats) {
        None => SourceStatus::Stale,
        Some(t) => {
            let secs = time::elapsed_seconds(&t, now);
            let age: u64 = if secs < 0 {
                0
            } else {
                secs as u64
            };
            assert(cadence_secs * STALE_MULTIPLIER <= u64::MAX * 3);
            if age <= RECENT_WINDOW_SECS {
                SourceStatus::Live
            } else if age as u128 > cadence_secs as u128 * STALE_MULTIPLIER as u128 {
                SourceStatus::Stale
            } else {
                SourceStatus::Live
            }
        },
    }
}

/// Derives the status of a source now.
pub fn derive_status(stats: &SourceStats, cadence_secs: u64) -> (res: SourceStatus)
    ensures
        exists|now: Moment|
            time::clock_shows(now) && res == #[trigger] status_of(
                *stats,
                cadence_secs as int,
                now,
            ),
{
    let now = time::now();
    let res = derive_status_at(stats, cadence_secs, &now);
    assert(res == status_of(*stats, cadence_secs as int, now@));
    res
}

// ---------------------------------------------------------------------------
// Metros and gaps
// ---------------------------------------------------------------------------

/// The metro label of a source.
pub open spec fn metro_of(name: Seq<char>) -> Seq<char> {
    if name == "austin"@ {
        "Austin, TX"@
    } else if name == "dallas"@ {
        "Dallas, TX"@
    } else if name == "sonoma"@ {
        "Sonoma County, CA"@
    } else if name == "long_beach"@ {
        "Long Beach, CA"@
    } else if name == "petfbi"@ {
        "National (PetFBI)"@
    } else if name == "rescuegroups"@ {
        "National (RescueGroups)"@
    } else {
        text::capitalized(text::replaced_all(name, '_', ' '))
    }
}

/// Derives a metro label from a source name for display.
pub fn metro_from_name(name: &str) -> (res: String)
    ensures
        res@ == metro_of(name@),
{
    if text::same(name, "austin") {
        return "Austin, TX".to_owned();
    }
    if text::same(name, "dallas") {
        return "Dallas, TX".to_owned();
    }
    if text::same(name, "sonoma") {
        return "Sonoma County, CA".to_owned();
    }
    if text::same(name, "long_beach") {
        return "Long Beach, CA".to_owned();
    }
    if text::same(name, "petfbi") {
        return "National (PetFBI)".to_owned();
    }
    if text::same(name, "rescuegroups") {
        return "National (RescueGroups)".to_owned();
    }
    text::capitalize(&text::replace_all(name, '_', ' '))
}

/// A metro with no registered feed.
#[derive(Debug, Clone, PartialEq, Eq)]
pub struct CatalogGap {
    /// Metro or region name.
    pub metro: String,
    /// Note documenting the gap.
    pub note: Option<String>,
}

/// The model of a [`CatalogGap`].
pub struct CatalogGapView {
    /// Metro or region name.
    pub metro: Seq<char>,
    /// Note documenting the gap.
    pub note: Option<Seq<char>>,
}

impl DeepView for CatalogGap {
    type V = CatalogGapView;

    open spec fn deep_view(&self) -> CatalogGapView {
        CatalogGapView { metro: self.metro@, note: self.note.deep_view() }
    }
}

/// Why each documented gap has no feed.
pub const GAP_NOTES: [&'static str; 5] = [
    "No open SODA dataset; LAAS uses a proprietary portal",
    "ACC data only via ACS311; no real-time API available",
    "CACC uses PetPoint, no public open-data endpoint",
    "BARC uses proprietary system; Socrata dataset deprecated",
    "MCACC dataset removed from Socrata 2023",
];

/// The first `k` documented gaps whose metro is not registered.
pub open spec fn gaps_beside(metros: Seq<Seq<char>>, k: nat) -> Seq<CatalogGapView>
    decreases k,
{
    if k == 0 {
        Seq::empty()
    } else {
        let before = gaps_beside(metros, (k - 1) as nat);
        if metros.contains(DOCUMENTED_GAPS@[k - 1]@) {
            before
        } else {
            before.push(
                CatalogGapView {
                    metro: DOCUMENTED_GAPS@[k - 1]@,
                    note: Some(GAP_NOTES@[k - 1]@),
                },
            )
        }
    }
}

fn holds(metros: &Vec<String>, metro: &str) -> (res: bool)
    ensures
        res == metros.deep_view().contains(metro@),
{
    let mut i: usize = 0;
    while i < metros.len()
        invariant
            i <= metros.len(),
            forall|j: int| 0 <= j < i ==> #[trigger] metros.deep_view()[j] != metro@,
        decreases metros.len() - i,
    {
        assert(metros.deep_view()[i as int] == metros@[i as int]@);
        if text::same(&metros[i], metro) {
            return true;
        }
        i += 1;
    }
    false
}

/// The documented gaps that no registered source covers.
pub fn catalog_documented_gaps(registered_metros: &Vec<String>) -> (res: Vec<CatalogGap>)
    ensures
        res.deep_view() == gaps_beside(registered_metros.deep_view(), 5),
{
    let ghost metros = registered_metros.deep_view();
    let mut out: Vec<CatalogGap> = Vec::new();
    let mut k: usize = 0;
    while k < 5
        invariant
            k <= 5,
            metros == registered_metros.deep_view(),
            out.deep_view() =~= gaps_beside(metros, k as nat),
        decreases 5 - k,
    {
        if !holds(registered_metros, DOCUMENTED_GAPS[k]) {
            let ghost before = out.deep_view();
            let gap = CatalogGap {
                metro: DOCUMENTED_GAPS[k].to_owned(),
                note: Some(GAP_NOTES[k].to_owned()),
            };
            out.push(gap);
            assert(out.deep_view() =~= before.push(gap.deep_view()));
        }
        k += 1;
    }
    out
}

// ---------------------------------------------------------------------------
// Report
// ---------------------------------------------------------------------------

/// Coverage row for a single registered source.
#[derive(Debug, Clone, PartialEq, Eq)]
pub struct SourceCoverageRow {
    /// Source name.
    pub name: String,
    /// Metro label.
    pub metro: String,
    /// Last successful poll, if known.
    pub last_success: Option<Timestamp>,
    /// Records in the store from this source. `None` when no store was provided.
    pub record_count: Option<u64>,
    /// Stray intakes among them. `None` when no store was provided.
    pub stray_count: Option<u64>,
    /// Derived operational status.
    pub status: SourceStatus,
    /// Whether the store was consulted for this row.
    pub store_available: bool,
}

/// The model of a [`SourceCoverageRow`].
pub struct CoverageRowView {
    /// Source name.
    pub name: Seq<char>,
    /// Metro label.
    pub metro: Seq<char>,
    /// Last successful poll.
    pub last_success: Option<Moment>,
    /// Records in the store.
    pub record_count: Option<u64>,
    /// Stray intakes.
    pub stray_count: Option<u64>,
    /// Status.
    pub status: SourceStatus,
    /// Whether the store was consulted.
    pub store_available: bool,
}

impl DeepView for SourceCoverageRow {
    type V = CoverageRowView;

    open spec fn deep_view(&self) -> CoverageRowView {
        CoverageRowView {
            name: self.name@,
            metro: self.metro@,
            last_success: self.last_success.deep_view(),
            record_count: self.record_count,
            stray_count: self.stray_count,
            status: self.status,
            store_available: self.store_available,
        }
    }
}

/// What a coverage report holds.
#[derive(Debug, Clone, PartialEq, Eq)]
pub struct CoverageReport {
    /// Per-source coverage rows.
    pub sources: Vec<SourceCoverageRow>,
    /// Metros with no registered feed.
    pub holes: Vec<CatalogGap>,
    /// UTC timestamp at which this report was generated.
    pub generated_at: String,
    /// Per-cell geographic statistics. `None` when geography was not asked for,
    /// no store was provided or the store has no geocoded records.
    pub cells: Option<Vec<CellStats>>,
    /// Detected coverage holes. `None` when geography was not asked for or no
    /// store was provided.
    pub geo_holes: Option<Vec<GeoHole>>,
    /// Count of ungeocoded records. `None` when geography was not asked for or
    /// no store was provided.
    pub ungeocoded: Option<u64>,
}

/// What was read of the ingest store.
#[derive(Debug)]
pub struct StoreContents {
    /// Statistics by source name.
    pub stats: Table<SourceStats>,
    /// The stored records; `None` where they could not be read.
    pub records: Option<Vec<PetRecord>>,
}

/// Arguments for the coverage report.
#[derive(Debug)]
pub struct CoverageArgs<'a, C> {
    /// What was read of the store, if one was given, or why it could not be opened
    /// or queried.
    pub store: Option<Result<StoreContents, String>>,
    /// Whether to emit JSON instead of a table.
    pub json: bool,
    /// Whether to compute geographic coverage.
    pub geo: bool,
    /// How many records a cell must have to appear; by default 0.
    pub geo_min_count: u64,
    /// The loaded connector registry.
    pub registry: &'a ConnectorRegistry<C>,
    /// Cadence hint in seconds by source name; by default 4 hours.
    pub cadence_hints: Table<u64>,
}

impl<'a, C> CoverageArgs<'a, C> {
    /// Whether the tables hold each name once.
    pub open spec fn wf(&self) -> bool {
        &&& self.registry.wf()
        &&& self.cadence_hints.wf()
        &&& self.store matches Some(Ok(contents)) ==> contents.stats.wf()
    }

    /// The statistics by source name, if a store was read.
    pub open spec fn stats(&self) -> Option<Map<Seq<char>, SourceStats>> {
        match self.store {
            Some(Ok(contents)) => Some(contents.stats@),
            _ => None,
        }
    }

    /// The records that geography is computed from, if it is.
    pub open spec fn located_records(&self) -> Option<Seq<PetRecordView>> {
        match self.store {
            Some(Ok(contents)) => if self.geo {
                contents.records.deep_view()
            } else {
                None
            },
            _ => None,
        }
    }
}

/// The cadence of a source: its hint, or the recent window.
pub open spec fn cadence_of(hints: Map<Seq<char>, u64>, name: Seq<char>) -> int {
    if hints.dom().contains(name) {
        hints[name] as int
    } else {
        RECENT_WINDOW_SECS as int
    }
}

/// The coverage row of a source.
pub open spec fn row_of(
    name: Seq<char>,
    stats: Option<Map<Seq<char>, SourceStats>>,
    hints: Map<Seq<char>, u64>,
    now: Moment,
) -> CoverageRowView {
    let (success, records, strays, status) = match stats {
        Some(map) => if map.dom().contains(name) {
            let s = map[name];
            (
                last_success(s),
                Some(s.record_count),
                Some(s.stray_count),
                status_of(s, cadence_of(hints, name), now),
            )
        } else {
            (None, Some(0u64), Some(0u64), SourceStatus::Silent)
        },
        None => (None, None, None, SourceStatus::Unknown),
    };
    CoverageRowView {
        name,
        metro: metro_of(name),
        last_success: success,
        record_count: records,
        stray_count: strays,
        status,
        store_available: stats is Some,
    }
}

/// Whether every row's name comes before that of each later row.
pub open spec fn in_name_order(rows: Seq<CoverageRowView>) -> bool {
    forall|i: int, j: int|
        0 <= i < j < rows.len() ==> text::comes_before(
            (#[trigger] rows[i]).name,
            (#[trigger] rows[j]).name,
        )
}

/// Whether the rows are those of the given sources, one for each, sorted by name.
pub open spec fn rows_cover(
    rows: Seq<CoverageRowView>,
    names: Set<Seq<char>>,
    stats: Option<Map<Seq<char>, SourceStats>>,
    hints: Map<Seq<char>, u64>,
    now: Moment,
) -> bool {
    &&& in_name_order(rows)
    &&& rows.map_values(|r: CoverageRowView| r.name).to_set() == names
    &&& forall|i: int|
        0 <= i < rows.len() ==> #[trigger] rows[i] == row_of(rows[i].name, stats, hints, now)
}

/// Whether the geographic part of a report is a given extension. The cells are
/// left out where no record is geocoded.
pub open spec fn shows(
    report: CoverageReport,
    ext: GeoCoverageExtension,
    recs: Seq<PetRecordView>,
) -> bool {
    &&& report.cells == (if geo_coverage::count_in(recs, None) == recs.len() {
        None
    } else {
        Some(ext.cells)
    })
    &&& report.geo_holes == Some(ext.geo_holes)
    &&& report.ungeocoded == Some(ext.ungeocoded)
}

/// Whether the geographic part of a report is an extension that records make.
pub open spec fn shows_geography(
    report: CoverageReport,
    recs: Seq<PetRecordView>,
    min_count: int,
) -> bool {
    exists|ext: GeoCoverageExtension|
        geo_coverage::extends(ext, recs, min_count) && #[trigger] shows(report, ext, recs)
}

/// Whether the geographic part of a report is what records make it.
pub open spec fn geo_part(
    report: CoverageReport,
    records: Option<Seq<PetRecordView>>,
    min_count: int,
) -> bool {
    match records {
        Some(recs) => shows_geography(report, recs, min_count),
        None => report.cells is None && report.geo_holes is None && report.ungeocoded is None,
    }
}

impl Ranked for String {
    open spec fn above(self, other: Self) -> bool {
        text::comes_before(self@, other@)
    }

    fn is_above(&self, other: &Self) -> bool {
        text::less(self, other)
    }

    proof fn above_is_strict(a: Self) {
        text::order_is_strict(a@, a@);
    }

    proof fn above_is_transitive(a: Self, b: Self, c: Self) {
        text::order_is_transitive(a@, b@, c@);
    }

    proof fn ties_are_transitive(a: Self, b: Self, c: Self) {
        text::order_is_total(a@, b@);
        text::order_is_total(b@, c@);
        if a.above(c) {
            if a@ != b@ && b@ != c@ {
                text::order_is_transitive(c@, b@, a@);
                text::order_is_strict(a@, c@);
            }
        }
    }
}

/// Sorts distinct names.
pub fn sorted_names(names: Vec<String>) -> (res: Vec<String>)
    requires
        names.deep_view().no_duplicates(),
    ensures
        forall|i: int, j: int|
            0 <= i < j < res.len() ==> text::comes_before(
                #[trigger] res.deep_view()[i],
                #[trigger] res.deep_view()[j],
            ),
        res.deep_view().to_set() == names.deep_view().to_set(),
{
    let ghost given = names@;
    let ghost views = names.deep_view();
    let res = rank::rank(names);
    proof {
        let sorted = res@;
        given.to_multiset_ensures();
        sorted.to_multiset_ensures();
        assert forall|x: String| given.contains(x) == sorted.contains(x) by {
            assert(given.contains(x) == (given.to_multiset().count(x) > 0));
            assert(sorted.contains(x) == (sorted.to_multiset().count(x) > 0));
        }
        assert(given.no_duplicates()) by {
            assert forall|i: int, j: int|
                0 <= i < given.len() && 0 <= j < given.len() && i != j implies given[i]
                != given[j] by {
                assert(views[i] != views[j]);
            }
        }
        given.lemma_multiset_has_no_duplicates();
        sorted.lemma_multiset_has_no_duplicates_conv();
        assert forall|i: int, j: int| 0 <= i < j < res.len() implies text::comes_before(
            #[trigger] res.deep_view()[i],
            #[trigger] res.deep_view()[j],
        ) by {
            assert(sorted.contains(sorted[i]) && sorted.contains(sorted[j]));
            let a = choose|a: int| 0 <= a < given.len() && given[a] == sorted[i];
            let b = choose|b: int| 0 <= b < given.len() && given[b] == sorted[j];
            assert(sorted[i] != sorted[j]);
            assert(views[a] != views[b]);
            assert(!sorted[j].above(sorted[i]));
            text::order_is_total(sorted[i]@, sorted[j]@);
        }
        assert forall|x: Seq<char>| res.deep_view().to_set().contains(x) == views.to_set().contains(
            x,
        ) by {
            if res.deep_view().contains(x) {
                let i = choose|i: int| 0 <= i < res.len() && res.deep_view()[i] == x;
                assert(sorted.contains(sorted[i]));
                let a = choose|a: int| 0 <= a < given.len() && given[a] == sorted[i];
                assert(views[a] == x);
            }
            if views.contains(x) {
                let a = choose|a: int| 0 <= a < views.len() && views[a] == x;
                assert(given.contains(given[a]));
                let i = choose|i: int| 0 <= i < sorted.len() && sorted[i] == given[a];
                assert(res.deep_view()[i] == x);
            }
        }
        assert(res.deep_view().to_set() =~= views.to_set());
    }
    res
}

/// The store's statistics.
pub open spec fn stats_of(store: Option<&StoreContents>) -> Option<Map<Seq<char>, SourceStats>> {
    match store {
        Some(contents) => Some(contents.stats@),
        None => None,
    }
}

fn coverage_row(
    store: Option<&StoreContents>,
    cadence_hints: &Table<u64>,
    name: &String,
    now: &Timestamp,
) -> (res: SourceCoverageRow)
    requires
        cadence_hints.wf(),
        store matches Some(contents) ==> contents.stats.wf(),
    ensures
        res.deep_view() == row_of(name@, stats_of(store), cadence_hints@, now@),
{
    let cadence: u64 = match cadence_hints.get(name) {
        Some(secs) => *secs,
        None => RECENT_WINDOW_SECS,
    };
    let metro = metro_from_name(name);
    match store {
        Some(contents) => match contents.stats.get(name) {
            Some(stats) => SourceCoverageRow {
                name: name.clone(),
                metro,
                last_success: success_of(stats),
                record_count: Some(stats.record_count),
                stray_count: Some(stats.stray_count),
                status: derive_status_at(stats, cadence, now),
                store_available: true,
            },
            None => SourceCoverageRow {
                name: name.clone(),
                metro,
                last_success: None,
                record_count: Some(0),
                stray_count: Some(0),
                status: SourceStatus::Silent,
                store_available: true,
            },
        },
        None => SourceCoverageRow {
            name: name.clone(),
            metro,
            last_success: None,
            record_count: None,
            stray_count: None,
            status: SourceStatus::Unknown,
            store_available: false,
        },
    }
}

/// Whether a report is the one that is owed at an instant.
pub open spec fn reports<C>(report: CoverageReport, args: CoverageArgs<C>, now: Moment) -> bool {
    &&& rows_cover(
        report.sources.deep_view(),
        args.registry@.dom(),
        args.stats(),
        args.cadence_hints@,
        now,
    )
    &&& report.holes.deep_view() == gaps_beside(
        report.sources.deep_view().map_values(|r: CoverageRowView| r.metro),
        5,
    )
    &&& report.generated_at@ == time::rfc3339_full(now)
    &&& geo_part(report, args.located_records(), args.geo_min_count as int)
}

/// Builds the report of a given instant. A store that could not be opened or
/// queried is an error.
pub fn build_report_at<C>(args: &CoverageArgs<C>, now: &Timestamp) -> (res: Result<
    CoverageReport,
    String,
>)
    requires
        args.wf(),
    ensures
        match args.store {
            Some(Err(e)) => res matches Err(given) && given@ == e@,
            _ => res matches Ok(report) && reports(report, *args, now@),
        },
{
    let store = match &args.store {
        Some(Ok(contents)) => Some(contents),
        Some(Err(e)) => {
            return Err(e.clone());
        },
        None => None,
    };
    let names = sorted_names(args.registry.names());
    let mut sources: Vec<SourceCoverageRow> = Vec::new();
    let mut metros: Vec<String> = Vec::new();
    let mut i: usize = 0;
    while i < names.len()
        invariant
            i == sources.len() == metros.len(),
            i <= names.len(),
            args.wf(),
            store matches Some(contents) ==> contents.stats.wf(),
            stats_of(store) == args.stats(),
            forall|j: int|
                0 <= j < i ==> #[trigger] sources.deep_view()[j] == row_of(
                    names.deep_view()[j],
                    args.stats(),
                    args.cadence_hints@,
                    now@,
                ),
            forall|j: int|
                0 <= j < i ==> #[trigger] metros.deep_view()[j] == metro_of(names.deep_view()[j]),
        decreases names.len() - i,
    {
        let ghost rows = sources.deep_view();
        let ghost labels = metros.deep_view();
        let row = coverage_row(store, &args.cadence_hints, &names[i], now);
        metros.push(row.metro.clone());
        sources.push(row);
        assert(sources.deep_view() =~= rows.push(row.deep_view()));
        assert(metros.deep_view() =~= labels.push(metro_of(names@[i as int]@)));
        i += 1;
    }
    proof {
        let rows = sources.deep_view();
        assert(rows.map_values(|r: CoverageRowView| r.name) =~= names.deep_view());
        assert(rows.map_values(|r: CoverageRowView| r.metro) =~= metros.deep_view());
    }
    let holes = catalog_documented_gaps(&metros);
    let generated_at = time::write_rfc3339(now);
    let records = match store {
        Some(contents) => if args.geo {
            contents.records.as_ref()
        } else {
            None
        },
        None => None,
    };
    match records {
        Some(recs) => {
            let ext = geo_coverage::build_geo_extension(recs, args.geo_min_count);
            let ghost made = ext;
            let GeoCoverageExtension { cells, geo_holes, ungeocoded } = ext;
            let cells = if ungeocoded == recs.len() as u64 {
                None
            } else {
                Some(cells)
            };
            let res = CoverageReport {
                sources,
                holes,
                generated_at,
                cells,
                geo_holes: Some(geo_holes),
                ungeocoded: Some(ungeocoded),
            };
            assert(geo_coverage::extends(made, recs.deep_view(), args.geo_min_count as int));
            assert(shows(res, made, recs.deep_view()));
            assert(shows_geography(res, recs.deep_view(), args.geo_min_count as int));
            Ok(res)
        },
        None => Ok(
            CoverageReport {
                sources,
                holes,
                generated_at,
                cells: None,
                geo_holes: None,
                ungeocoded: None,
            },
        ),
    }
}

/// Builds the report of this moment. A store that could not be opened or queried
/// is an error.
pub fn build_report<C>(args: &CoverageArgs<C>) -> (res: Result<CoverageReport, String>)
    requires
        args.wf(),
    ensures
        match args.store {
            Some(Err(e)) => res matches Err(given) && given@ == e@,
            _ => res matches Ok(report) && exists|now: Moment|
                time::clock_shows(now) && #[trigger] reports(report, *args, now),
        },
{
    let now = time::now();
    build_report_at(args, &now)
}

// ---------------------------------------------------------------------------
// Human-readable output
// ---------------------------------------------------------------------------

/// A line of the table, its columns filled up to their widths.
pub open spec fn coverage_line(
    source: Seq<char>,
    metro: Seq<char>,
    last: Seq<char>,
    records: Seq<char>,
    stray: Seq<char>,
    status: Seq<char>,
) -> Seq<char> {
    text::padded(source, 20) + "  "@ + text::padded(metro, 25) + "  "@ + text::padded(last, 26)
        + "  "@ + text::padded_left(records, 12) + "  "@ + text::padded_left(stray, 11) + "  "@
        + status
}

fn write_coverage_line(
    source: &str,
    metro: &str,
    last: &str,
    records: &str,
    stray: &str,
    status: &str,
) -> (res: String)
    ensures
        res@ == coverage_line(source@, metro@, last@, records@, stray@, status@),
{
    text::pad(source, 20).concat("  ").concat(&text::pad(metro, 25)).concat("  ").concat(
        &text::pad(last, 26),
    ).concat("  ").concat(&text::pad_left(records, 12)).concat("  ").concat(
        &text::pad_left(stray, 11),
    ).concat("  ").concat(status)
}

/// A count, or that it is unknown.
pub open spec fn count_text(n: Option<u64>) -> Seq<char> {
    match n {
        Some(n) => text::decimal(n as nat),
        None => "unknown"@,
    }
}

fn write_count(n: Option<u64>) -> (res: String)
    ensures
        res@ == count_text(n),
{
    match n {
        Some(n) => text::write_decimal(n),
        None => "unknown".to_owned(),
    }
}

/// The last success of a row, that there was none, or that it is unknown.
pub open spec fn success_text(row: CoverageRowView) -> Seq<char> {
    match row.last_success {
        Some(m) => time::formatted(m, "%Y-%m-%dT%H:%M:%SZ"@),
        None => if row.store_available {
            "never"@
        } else {
            "unknown"@
        },
    }
}

fn write_success(row: &SourceCoverageRow) -> (res: String)
    ensures
        res@ == success_text(row.deep_view()),
{
    match &row.last_success {
        Some(t) => time::write_datetime(t, "%Y-%m-%dT%H:%M:%SZ"),
        None => if row.store_available {
            "never".to_owned()
        } else {
            "unknown".to_owned()
        },
    }
}

/// The line of a source.
pub open spec fn row_line(row: CoverageRowView) -> Seq<char> {
    coverage_line(
        row.name,
        row.metro,
        success_text(row),
        count_text(row.record_count),
        count_text(row.stray_count),
        status_name(row.status),
    )
}

/// The lines of the sources.
pub open spec fn row_lines(rows: Seq<CoverageRowView>) -> Seq<Seq<char>> {
    rows.map_values(|row: CoverageRowView| row_line(row))
}

/// Whether a source needs attention.
pub open spec fn needs_attention(row: CoverageRowView) -> bool {
    row.status == SourceStatus::Silent || row.status == SourceStatus::Unreachable
}

/// The rows that need attention.
pub open spec fn attention_rows(rows: Seq<CoverageRowView>) -> Seq<CoverageRowView>
    decreases rows.len(),
{
    if rows.len() == 0 {
        Seq::empty()
    } else {
        let before = attention_rows(rows.drop_last());
        if needs_attention(rows.last()) {
            before.push(rows.last())
        } else {
            before
        }
    }
}

/// The ending of a plural.
pub open spec fn plural(n: int) -> Seq<char> {
    if n == 1 {
        ""@
    } else {
        "s"@
    }
}

fn write_plural(n: usize) -> (res: String)
    ensures
        res@ == plural(n as int),
{
    if n == 1 {
        "".to_owned()
    } else {
        "s".to_owned()
    }
}

/// The line of a source that needs attention.
pub open spec fn attention_line(row: CoverageRowView) -> Seq<char> {
    "  "@ + row.name + " ["@ + status_name(row.status) + "] \u{2014} metro: "@ + row.metro
}

/// The section on the sources that need attention.
pub open spec fn attention_section(rows: Seq<CoverageRowView>) -> Seq<Seq<char>> {
    let found = attention_rows(rows);
    if found.len() == 0 {
        seq!["needs-attention: none"@]
    } else {
        seq![
            "needs-attention ("@ + text::decimal(found.len()) + " source"@ + plural(
                found.len() as int,
            ) + "):"@,
        ] + found.map_values(|row: CoverageRowView| attention_line(row))
    }
}

/// The line of a gap.
pub open spec fn gap_line(gap: CatalogGapView) -> Seq<char> {
    match gap.note {
        Some(note) => "  "@ + gap.metro + " \u{2014} "@ + note,
        None => "  "@ + gap.metro,
    }
}

/// The section on the known gaps.
pub open spec fn gap_section(gaps: Seq<CatalogGapView>) -> Seq<Seq<char>> {
    if gaps.len() == 0 {
        seq!["known-gaps: none"@]
    } else {
        seq![
            "known-gaps ("@ + text::decimal(gaps.len()) + " metro"@ + plural(gaps.len() as int)
                + " with no feed):"@,
        ] + gaps.map_values(|gap: CatalogGapView| gap_line(gap))
    }
}

/// The line on the thresholds.
pub open spec fn threshold_line() -> Seq<char> {
    "thresholds: STALE_MULTIPLIER=3 (cadence\u{d7}3), RECENT_WINDOW_SECS=14400 (4h)"@
}

/// The lines of a report.
pub open spec fn report_lines(
    generated_at: Seq<char>,
    rows: Seq<CoverageRowView>,
    gaps: Seq<CatalogGapView>,
) -> Seq<Seq<char>> {
    seq![
        "homeward coverage report \u{2014} "@ + generated_at,
        ""@,
        coverage_line("SOURCE"@, "METRO"@, "LAST_SUCCESS"@, "RECORDS"@, "STRAY"@, "STATUS"@),
        text::repeated('-', 110),
    ] + row_lines(rows) + seq![""@] + attention_section(rows) + seq![""@] + gap_section(gaps)
        + seq![""@, threshold_line()]
}

fn write_rows(rows: &Vec<SourceCoverageRow>) -> (res: Vec<String>)
    ensures
        res.deep_view() == row_lines(rows.deep_view()),
{
    let mut out: Vec<String> = Vec::new();
    let mut i: usize = 0;
    while i < rows.len()
        invariant
            i == out.len() <= rows.len(),
            forall|j: int|
                0 <= j < i ==> #[trigger] out.deep_view()[j] == row_line(rows.deep_view()[j]),
        decreases rows.len() - i,
    {
        let row = &rows[i];
        let ghost before = out.deep_view();
        let line = write_coverage_line(
            &row.name,
            &row.metro,
            &write_success(row),
            &write_count(row.record_count),
            &write_count(row.stray_count),
            &row.status.label(),
        );
        out.push(line);
        assert(out.deep_view() =~= before.push(row_line(row.deep_view())));
        i += 1;
    }
    assert(out.deep_view() =~= row_lines(rows.deep_view()));
    out
}

fn write_attention(rows: &Vec<SourceCoverageRow>) -> (res: Vec<String>)
    ensures
        res.deep_view() == attention_section(rows.deep_view()),
{
    let ghost all = rows.deep_view();
    let mut lines: Vec<String> = Vec::new();
    let mut i: usize = 0;
    assert(all.take(0) =~= Seq::empty());
    while i < rows.len()
        invariant
            i <= rows.len(),
            lines.len() <= i,
            all == rows.deep_view(),
            lines.deep_view() =~= attention_rows(all.take(i as int)).map_values(
                |row: CoverageRowView| attention_line(row),
            ),
        decreases rows.len() - i,
    {
        let row = &rows[i];
        proof {
            assert(all.take(i + 1).drop_last() =~= all.take(i as int));
            assert(all.take(i + 1).last() == row.deep_view());
        }
        let silent = match row.status {
            SourceStatus::Silent => true,
            SourceStatus::Unreachable => true,
            _ => false,
        };
        if silent {
            let ghost before = lines.deep_view();
            let line = "  ".to_owned().concat(&row.name).concat(" [").concat(
                &row.status.label(),
            ).concat("] \u{2014} metro: ").concat(&row.metro);
            lines.push(line);
            assert(lines.deep_view() =~= before.push(attention_line(row.deep_view())));
        }
        i += 1;
    }
    assert(all.take(all.len() as int) =~= all);
    let ghost found = attention_rows(all);
    assert(lines.deep_view().len() == found.len());
    if lines.len() == 0 {
        let out = vec!["needs-attention: none".to_owned()];
        assert(out.deep_view() =~= attention_section(all));
        return out;
    }
    let heading = "needs-attention (".to_owned().concat(
        &text::write_decimal(lines.len() as u64),
    ).concat(" source").concat(&write_plural(lines.len())).concat("):");
    let mut out = vec![heading];
    let ghost said = lines.deep_view();
    out.append(&mut lines);
    assert(out.deep_view() =~= seq![heading@] + said);
    out
}

fn write_gaps(gaps: &Vec<CatalogGap>) -> (res: Vec<String>)
    ensures
        res.deep_view() == gap_section(gaps.deep_view()),
{
    let ghost all = gaps.deep_view();
    if gaps.len() == 0 {
        let out = vec!["known-gaps: none".to_owned()];
        assert(out.deep_view() =~= gap_section(all));
        return out;
    }
    let heading = "known-gaps (".to_owned().concat(&text::write_decimal(gaps.len() as u64)).concat(
        " metro",
    ).concat(&write_plural(gaps.len())).concat(" with no feed):");
    let mut out = vec![heading];
    let mut i: usize = 0;
    assert(out.deep_view() =~= seq![heading@]);
    while i < gaps.len()
        invariant
            i <= gaps.len(),
            all == gaps.deep_view(),
            out.deep_view() =~= seq![heading@] + all.take(i as int).map_values(
                |gap: CatalogGapView| gap_line(gap),
            ),
        decreases gaps.len() - i,
    {
        let gap = &gaps[i];
        let ghost before = out.deep_view();
        let line = match &gap.note {
            Some(note) => "  ".to_owned().concat(&gap.metro).concat(" \u{2014} ").concat(note),
            None => "  ".to_owned().concat(&gap.metro),
        };
        assert(line@ == gap_line(all[i as int]));
        out.push(line);
        assert(out.deep_view() =~= before.push(line@));
        i += 1;
    }
    assert(all.take(all.len() as int) =~= all);
    out
}

/// Prints a report as lines of text.
pub fn print_human_report(report: &CoverageReport) -> (res: Vec<String>)
    ensures
        res.deep_view() == report_lines(
            report.generated_at@,
            report.sources.deep_view(),
            report.holes.deep_view(),
        ),
{
    let ghost rows = report.sources.deep_view();
    let ghost gaps = report.holes.deep_view();
    let mut out = vec![
        "homeward coverage report \u{2014} ".to_owned().concat(&report.generated_at),
        "".to_owned(),
        write_coverage_line("SOURCE", "METRO", "LAST_SUCCESS", "RECORDS", "STRAY", "STATUS"),
        text::repeat('-', 110),
    ];
    let ghost head = out.deep_view();
    assert(head =~= seq![
        "homeward coverage report \u{2014} "@ + report.generated_at@,
        ""@,
        coverage_line("SOURCE"@, "METRO"@, "LAST_SUCCESS"@, "RECORDS"@, "STRAY"@, "STATUS"@),
        text::repeated('-', 110),
    ]);
    let mut lines = write_rows(&report.sources);
    out.append(&mut lines);
    assert(out.deep_view() =~= head + row_lines(rows));
    out.push("".to_owned());
    assert(out.deep_view() =~= head + row_lines(rows) + seq![""@]);
    let mut lines = write_attention(&report.sources);
    out.append(&mut lines);
    assert(out.deep_view() =~= head + row_lines(rows) + seq![""@] + attention_section(rows));
    out.push("".to_owned());
    assert(out.deep_view() =~= head + row_lines(rows) + seq![""@] + attention_section(rows)
        + seq![""@]);
    let mut lines = write_gaps(&report.holes);
    out.append(&mut lines);
    assert(out.deep_view() =~= head + row_lines(rows) + seq![""@] + attention_section(rows)
        + seq![""@] + gap_section(gaps));
    out.push("".to_owned());
    out.push(
        "thresholds: STALE_MULTIPLIER=3 (cadence\u{d7}3), RECENT_WINDOW_SECS=14400 (4h)".to_owned(),
    );
    assert(out.deep_view() =~= report_lines(report.generated_at@, rows, gaps));
    out
}

// ---------------------------------------------------------------------------
// Laws
// ---------------------------------------------------------------------------

/// Without a store nothing is made up: the status is UNKNOWN, and neither counts
/// nor a last success are given.
pub proof fn no_store_marks_unknown(name: Seq<char>, hints: Map<Seq<char>, u64>, now: Moment)
    ensures
        row_of(name, None, hints, now).status == SourceStatus::Unknown,
        row_of(name, None, hints, now).record_count is None,
        row_of(name, None, hints, now).stray_count is None,
        row_of(name, None, hints, now).last_success is None,
        !row_of(name, None, hints, now).store_available,
{
}

/// A source without records is SILENT, whatever its cursor says, and no other
/// source is.
pub proof fn silent_means_no_records(stats: SourceStats, cadence_secs: int, now: Moment)
    ensures
        status_of(stats, cadence_secs, now) == SourceStatus::Silent <==> stats.record_count == 0,
{
}

/// A source with records that was polled within the recent window is LIVE.
pub proof fn recent_success_is_live(stats: SourceStats, cadence_secs: int, now: Moment)
    requires
        stats.record_count > 0,
        stats.ever_polled,
        last_success(stats) is Some,
        age(last_success(stats)->0, now) <= RECENT_WINDOW_SECS,
    ensures
        status_of(stats, cadence_secs, now) == SourceStatus::Live,
{
}

/// No status is derived as UNREACHABLE, which is reserved, or as UNKNOWN, which
/// means that there is no store.
pub proof fn derived_statuses(stats: SourceStats, cadence_secs: int, now: Moment)
    ensures
        status_of(stats, cadence_secs, now) != SourceStatus::Unreachable,
        status_of(stats, cadence_secs, now) != SourceStatus::Unknown,
{
}

/// The rows do not depend on the order in which sources were registered: two
/// reports on the same sources, of the same instant, have the same rows.
pub proof fn rows_are_determined(
    a: Seq<CoverageRowView>,
    b: Seq<CoverageRowView>,
    names: Set<Seq<char>>,
    stats: Option<Map<Seq<char>, SourceStats>>,
    hints: Map<Seq<char>, u64>,
    now: Moment,
)
    requires
        rows_cover(a, names, stats, hints, now),
        rows_cover(b, names, stats, hints, now),
    ensures
        a == b,
{
    let n = if a.len() < b.len() {
        a.len() as int
    } else {
        b.len() as int
    };
    lemma_same_front(a, b, names, stats, hints, now, n);
    if b.len() == n {
        lemma_no_further(a, b, names, stats, hints, now, n);
    } else {
        lemma_no_further(b, a, names, stats, hints, now, n);
    }
    assert(a =~= b);
}

/// Where a row's name stands among rows with the same names.
proof fn lemma_find_name(a: Seq<CoverageRowView>, b: Seq<CoverageRowView>, i: int) -> (k: int)
    requires
        0 <= i < a.len(),
        a.map_values(|r: CoverageRowView| r.name).to_set() == b.map_values(
            |r: CoverageRowView| r.name,
        ).to_set(),
    ensures
        0 <= k < b.len(),
        b[k].name == a[i].name,
{
    let x = a.map_values(|r: CoverageRowView| r.name);
    let y = b.map_values(|r: CoverageRowView| r.name);
    assert(x[i] == a[i].name);
    assert(x.contains(x[i]));
    assert(y.to_set().contains(x[i]));
    let k = choose|k: int| 0 <= k < y.len() && y[k] == x[i];
    assert(y[k] == b[k].name);
    k
}

proof fn lemma_no_further(
    a: Seq<CoverageRowView>,
    b: Seq<CoverageRowView>,
    names: Set<Seq<char>>,
    stats: Option<Map<Seq<char>, SourceStats>>,
    hints: Map<Seq<char>, u64>,
    now: Moment,
    n: int,
)
    requires
        rows_cover(a, names, stats, hints, now),
        rows_cover(b, names, stats, hints, now),
        b.len() == n <= a.len(),
        forall|i: int| 0 <= i < n ==> a[i] == #[trigger] b[i],
    ensures
        a.len() == n,
{
    if a.len() > n {
        let k = lemma_find_name(a, b, n);
        assert(a[k] == b[k]);
        assert(text::comes_before(a[k].name, a[n].name));
        text::order_is_strict(a[n].name, a[n].name);
    }
}

proof fn lemma_same_front(
    a: Seq<CoverageRowView>,
    b: Seq<CoverageRowView>,
    names: Set<Seq<char>>,
    stats: Option<Map<Seq<char>, SourceStats>>,
    hints: Map<Seq<char>, u64>,
    now: Moment,
    n: int,
)
    requires
        rows_cover(a, names, stats, hints, now),
        rows_cover(b, names, stats, hints, now),
        0 <= n <= a.len(),
        n <= b.len(),
    ensures
        forall|i: int| 0 <= i < n ==> a[i] == #[trigger] b[i],
    decreases n,
{
    if n > 0 {
        lemma_same_front(a, b, names, stats, hints, now, n - 1);
        let i = n - 1;
        let k = lemma_find_name(a, b, i);
        let l = lemma_find_name(b, a, i);
        text::order_is_strict(a[i].name, b[i].name);
        if k < i {
            assert(a[k] == b[k]);
            assert(text::comes_before(a[k].name, a[i].name));
            text::order_is_strict(a[i].name, a[i].name);
        } else if l < i {
            assert(a[l] == b[l]);
            assert(text::comes_before(b[l].name, b[i].name));
            text::order_is_strict(b[i].name, b[i].name);
        } else if k > i && l > i {
            assert(text::comes_before(b[i].name, b[k].name));
            assert(text::comes_before(a[i].name, a[l].name));
        }
        assert(a[i].name == b[i].name);
        assert(a[i] == row_of(a[i].name, stats, hints, now));
        assert(b[i] == row_of(b[i].name, stats, hints, now));
    }
}

/// How many nanoseconds lie between two instants outside leap seconds.
pub open spec fn nanos_since(m: Moment, now: Moment) -> int {
    (now.secs - m.secs) * 1_000_000_000 + (now.nanos - m.nanos)
}

/// A source without records is SILENT. One with records that has no cursor, or of
/// which neither the cursor's instant nor when a record was last seen is known, is
/// STALE. Any other is LIVE where its last success, the cursor's instant or else
/// when a record was last seen, is no more than four hours past, or no more than
/// three times its cadence, in whole seconds; and STALE otherwise.
pub proof fn statuses_follow_records_and_time(stats: SourceStats, cadence_secs: int, now: Moment)
    requires
        cadence_secs >= 0,
        now.nanos < 1_000_000_000,
        stats.last_cursor.deep_view() matches Some(m) ==> m.nanos < 1_000_000_000,
        stats.last_seen.deep_view() matches Some(m) ==> m.nanos < 1_000_000_000,
    ensures
        ({
            let status = status_of(stats, cadence_secs, now);
            let success = match stats.last_cursor.deep_view() {
                Some(m) => Some(m),
                None => stats.last_seen.deep_view(),
            };
            let second = 1_000_000_000int;
            &&& status == SourceStatus::Silent <==> stats.record_count == 0
            &&& status == SourceStatus::Live || status == SourceStatus::Stale || status
                == SourceStatus::Silent
            &&& stats.record_count > 0 ==> (status == SourceStatus::Live <==> {
                &&& stats.ever_polled
                &&& success is Some
                &&& {
                    ||| nanos_since(success->0, now) < 14401 * second
                    ||| nanos_since(success->0, now) < (3 * cadence_secs + 1) * second
                }
            })
        }),
{
    let success = match stats.last_cursor.deep_view() {
        Some(m) => Some(m),
        None => stats.last_seen.deep_view(),
    };
    if let Some(m) = success {
        let d = nanos_since(m, now);
        assert(now.total_nanos() - m.total_nanos() == d);
        assert(cadence_secs * STALE_MULTIPLIER == 3 * cadence_secs);
        if d < 0 {
            assert((-d) / 1_000_000_000 >= 0);
        }
    }
}

/// Without a store nothing is known of a source. With one, a source that the store
/// does not know is SILENT with no records; of any other the row tells what the
/// store does, by the cadence of the source or else by four hours.
pub proof fn rows_tell_what_the_store_does(
    name: Seq<char>,
    stats: Map<Seq<char>, SourceStats>,
    hints: Map<Seq<char>, u64>,
    now: Moment,
)
    ensures
        ({
            let row = row_of(name, None, hints, now);
            &&& row.name == name
            &&& row.metro == metro_of(name)
            &&& row.status == SourceStatus::Unknown
            &&& row.record_count is None && row.stray_count is None && row.last_success is None
            &&& !row.store_available
        }),
        ({
            let row = row_of(name, Some(stats), hints, now);
            let s = stats[name];
            let cadence = if hints.dom().contains(name) {
                hints[name] as int
            } else {
                14400
            };
            &&& row.name == name
            &&& row.metro == metro_of(name)
            &&& row.store_available
            &&& stats.dom().contains(name) ==> {
                &&& row.record_count == Some(s.record_count)
                &&& row.stray_count == Some(s.stray_count)
                &&& row.status == status_of(s, cadence, now)
                &&& row.last_success == (match s.last_cursor.deep_view() {
                    Some(m) => Some(m),
                    None => s.last_seen.deep_view(),
                })
            }
            &&& !stats.dom().contains(name) ==> {
                &&& row.record_count == Some(0u64)
                &&& row.stray_count == Some(0u64)
                &&& row.status == SourceStatus::Silent
                &&& row.last_success is None
            }
        }),
{
}

/// The metros of the built-in and the national sources; any other source is called
/// after its name, with spaces for underscores and a capital in front.
pub proof fn metros_are_told_by_name(name: Seq<char>)
    ensures
        metro_of("austin"@) == "Austin, TX"@,
        metro_of("dallas"@) == "Dallas, TX"@,
        metro_of("sonoma"@) == "Sonoma County, CA"@,
        metro_of("long_beach"@) == "Long Beach, CA"@,
        metro_of("petfbi"@) == "National (PetFBI)"@,
        metro_of("rescuegroups"@) == "National (RescueGroups)"@,
        name != "austin"@ && name != "dallas"@ && name != "sonoma"@ && name != "long_beach"@ && name
            != "petfbi"@ && name != "rescuegroups"@ ==> {
            let metro = metro_of(name);
            &&& metro.len() == name.len()
            &&& forall|i: int|
                0 < i < name.len() ==> #[trigger] metro[i] == (if name[i] == '_' {
                    ' '
                } else {
                    name[i]
                })
            &&& name.len() > 0 && 'a' <= name[0] <= 'z' ==> metro[0] as int == name[0] as int - 32
            &&& name.len() > 0 && name[0] == '_' ==> metro[0] == ' '
            &&& name.len() > 0 && !('a' <= name[0] <= 'z') && name[0] != '_' ==> metro[0] == name[0]
        },
{
    reveal_strlit("austin");
    reveal_strlit("dallas");
    reveal_strlit("sonoma");
    reveal_strlit("long_beach");
    reveal_strlit("petfbi");
    reveal_strlit("rescuegroups");
    assert("austin"@[0] == 'a' && "dallas"@[0] == 'd' && "sonoma"@[0] == 's' && "long_beach"@[0]
        == 'l' && "petfbi"@[0] == 'p' && "rescuegroups"@[0] == 'r');
}

/// A documented gap is listed, with its note, exactly where no registered source is
/// of its metro, and the gaps keep their order.
pub proof fn gaps_are_the_metros_without_a_source(metros: Seq<Seq<char>>)
    ensures
        ({
            let la = CatalogGapView {
                metro: "Los Angeles, CA"@,
                note: Some("No open SODA dataset; LAAS uses a proprietary portal"@),
            };
            let ny = CatalogGapView {
                metro: "New York, NY"@,
                note: Some("ACC data only via ACS311; no real-time API available"@),
            };
            let chicago = CatalogGapView {
                metro: "Chicago, IL"@,
                note: Some("CACC uses PetPoint, no public open-data endpoint"@),
            };
            let houston = CatalogGapView {
                metro: "Houston, TX"@,
                note: Some("BARC uses proprietary system; Socrata dataset deprecated"@),
            };
            let phoenix = CatalogGapView {
                metro: "Phoenix, AZ"@,
                note: Some("MCACC dataset removed from Socrata 2023"@),
            };
            gaps_beside(metros, 5) == unless(metros, la) + unless(metros, ny) + unless(
                metros,
                chicago,
            ) + unless(metros, houston) + unless(metros, phoenix)
        }),
{
    reveal_with_fuel(gaps_beside, 6);
    let g1 = gaps_beside(metros, 1);
    let g2 = gaps_beside(metros, 2);
    let g3 = gaps_beside(metros, 3);
    let g4 = gaps_beside(metros, 4);
    let gap = |k: int| CatalogGapView { metro: DOCUMENTED_GAPS@[k]@, note: Some(GAP_NOTES@[k]@) };
    assert(g1 =~= unless(metros, gap(0)));
    assert(g2 =~= g1 + unless(metros, gap(1)));
    assert(g3 =~= g2 + unless(metros, gap(2)));
    assert(g4 =~= g3 + unless(metros, gap(3)));
    assert(gaps_beside(metros, 5) =~= g4 + unless(metros, gap(4)));
}

/// A gap, unless its metro is registered.
pub open spec fn unless(metros: Seq<Seq<char>>, gap: CatalogGapView) -> Seq<CatalogGapView> {
    if metros.contains(gap.metro) {
        Seq::empty()
    } else {
        seq![gap]
    }
}

/// A source needs attention where it is SILENT or UNREACHABLE, and the sources that
/// do keep their order.
pub proof fn silent_sources_need_attention(rows: Seq<CoverageRowView>, row: CoverageRowView)
    ensures
        attention_rows(rows.push(row)) == (if row.status == SourceStatus::Silent || row.status
            == SourceStatus::Unreachable {
            attention_rows(rows).push(row)
        } else {
            attention_rows(rows)
        }),
        attention_rows(Seq::empty()).len() == 0,
{
    assert(rows.push(row).drop_last() =~= rows);
}

/// A row is printed with its name, its metro, its last success, its counts and its
/// status; what is not known is said to be unknown, and a source that the store has
/// never seen succeed never did.
pub proof fn rows_print_what_they_hold(row: CoverageRowView)
    ensures
        row_line(row) == text::padded(row.name, 20) + "  "@ + text::padded(row.metro, 25) + "  "@
            + text::padded(
            match row.last_success {
                Some(m) => time::formatted(m, "%Y-%m-%dT%H:%M:%SZ"@),
                None => if row.store_available {
                    "never"@
                } else {
                    "unknown"@
                },
            },
            26,
        ) + "  "@ + text::padded_left(
            match row.record_count {
                Some(n) => text::decimal(n as nat),
                None => "unknown"@,
            },
            12,
        ) + "  "@ + text::padded_left(
            match row.stray_count {
                Some(n) => text::decimal(n as nat),
                None => "unknown"@,
            },
            11,
        ) + "  "@ + (match row.status {
            SourceStatus::Live => "LIVE"@,
            SourceStatus::Stale => "STALE"@,
            SourceStatus::Silent => "SILENT"@,
            SourceStatus::Unreachable => "UNREACHABLE"@,
            SourceStatus::Unknown => "UNKNOWN"@,
        }),
        RECENT_WINDOW_SECS == 14400,
        STALE_MULTIPLIER == 3,
{
}

/// What the store answers is taken as it is: a count that is not negative counts, a
/// negative one is none, and an instant is one where it reads as RFC 3339.
pub proof fn stored_values_are_taken_as_they_are(n: i64, s: Seq<char>)
    ensures
        n >= 0 ==> stored_count(n) == n,
        n < 0 ==> stored_count(n) == 0,
        stored_instant(None) is None,
        time::rfc3339_instant(s) matches Ok(m) ==> stored_instant(Some(s)) == Some(m),
        time::rfc3339_instant(s) is Err ==> stored_instant(Some(s)) is None,
{
}

/// A report is told in the order: when it was made, the heading, a line for each
/// source, the sources that need attention, the metros without a feed, and the
/// thresholds.
pub proof fn reports_are_told_in_order(
    generated_at: Seq<char>,
    rows: Seq<CoverageRowView>,
    gaps: Seq<CatalogGapView>,
    i: int,
)
    requires
        0 <= i < rows.len(),
    ensures
        ({
            let lines = report_lines(generated_at, rows, gaps);
            let troubled = attention_section(rows);
            let missing = gap_section(gaps);
            let n = rows.len() as int;
            let m = troubled.len() as int;
            let k = missing.len() as int;
            &&& lines.len() == n + m + k + 8
            &&& lines[0] == "homeward coverage report \u{2014} "@ + generated_at
            &&& lines[1] == ""@
            &&& lines[3].len() == 110 && forall|j: int|
                0 <= j < 110 ==> #[trigger] lines[3][j] == '-'
            &&& lines[4 + i] == row_line(rows[i])
            &&& lines[4 + n] == ""@
            &&& lines.subrange(5 + n, 5 + n + m) == troubled
            &&& lines[5 + n + m] == ""@
            &&& lines.subrange(6 + n + m, 6 + n + m + k) == missing
            &&& lines[6 + n + m + k] == ""@
            &&& lines.last()
                == "thresholds: STALE_MULTIPLIER=3 (cadence\u{d7}3), RECENT_WINDOW_SECS=14400 (4h)"@
        }),
{
    let lines = report_lines(generated_at, rows, gaps);
    let troubled = attention_section(rows);
    let missing = gap_section(gaps);
    let n = rows.len() as int;
    let m = troubled.len() as int;
    let k = missing.len() as int;
    assert(lines.subrange(5 + n, 5 + n + m) =~= troubled);
    assert(lines.subrange(6 + n + m, 6 + n + m + k) =~= missing);
}

/// The section on sources that need attention counts them and names each of them
/// with its status and its metro, in the order of the rows; where there are none it
/// says so.
pub proof fn troubled_sources_are_named(rows: Seq<CoverageRowView>, i: int)
    ensures
        ({
            let troubled = attention_rows(rows);
            let lines = attention_section(rows);
            &&& troubled.len() == 0 ==> lines == seq!["needs-attention: none"@]
            &&& troubled.len() > 0 ==> {
                &&& lines.len() == troubled.len() + 1
                &&& exists|count: Seq<char>| #[trigger]
                    query::is_count(count) && query::count_of(count) == troubled.len() && lines[0]
                        == "needs-attention ("@ + count + " source"@ + (if troubled.len() == 1 {
                        ""@
                    } else {
                        "s"@
                    }) + "):"@
                &&& 0 <= i < troubled.len() ==> lines[i + 1] == "  "@ + troubled[i].name + " ["@ + (
                match troubled[i].status {
                    SourceStatus::Live => "LIVE"@,
                    SourceStatus::Stale => "STALE"@,
                    SourceStatus::Silent => "SILENT"@,
                    SourceStatus::Unreachable => "UNREACHABLE"@,
                    SourceStatus::Unknown => "UNKNOWN"@,
                }) + "] \u{2014} metro: "@ + troubled[i].metro
            }
        }),
{
    let n = attention_rows(rows).len();
    query::decimals_read_back(n);
    assert(query::is_count(text::decimal(n)));
}

/// The section on metros without a feed counts them and names each of them, with its
/// note where it has one; where there are none it says so.
pub proof fn missing_metros_are_named(gaps: Seq<CatalogGapView>, i: int)
    ensures
        ({
            let lines = gap_section(gaps);
            &&& gaps.len() == 0 ==> lines == seq!["known-gaps: none"@]
            &&& gaps.len() > 0 ==> {
                &&& lines.len() == gaps.len() + 1
                &&& exists|count: Seq<char>| #[trigger]
                    query::is_count(count) && query::count_of(count) == gaps.len() && lines[0]
                        == "known-gaps ("@ + count + " metro"@ + (if gaps.len() == 1 {
                        ""@
                    } else {
                        "s"@
                    }) + " with no feed):"@
                &&& 0 <= i < gaps.len() ==> lines[i + 1] == (match gaps[i].note {
                    Some(note) => "  "@ + gaps[i].metro + " \u{2014} "@ + note,
                    None => "  "@ + gaps[i].metro,
                })
            }
        }),
{
    query::decimals_read_back(gaps.len());
    assert(query::is_count(text::decimal(gaps.len())));
}

/// A report has one row for each source that is registered, and no other, in the
/// order of their names; it holds cells and holes only where a store was read and
/// the map was asked for.
pub proof fn reports_cover_what_is_registered<C>(
    report: CoverageReport,
    args: CoverageArgs<C>,
    now: Moment,
    name: Seq<char>,
)
    requires
        reports(report, args, now),
    ensures
        args.registry@.dom().contains(name) <==> exists|i: int|
            0 <= i < report.sources@.len() && (#[trigger] report.sources@[i]).name@ == name,
        forall|i: int, j: int|
            0 <= i < j < report.sources@.len() ==> text::comes_before(
                (#[trigger] report.sources@[i]).name@,
                (#[trigger] report.sources@[j]).name@,
            ),
        !args.geo || args.store is None ==> report.cells is None && report.geo_holes is None
            && report.ungeocoded is None,
{
    let rows = report.sources.deep_view();
    let names = rows.map_values(|r: CoverageRowView| r.name);
    assert forall|i: int| 0 <= i < rows.len() implies #[trigger] rows[i].name
        == report.sources@[i].name@ by {}
    assert forall|i: int, j: int| 0 <= i < j < report.sources@.len() implies text::comes_before(
        (#[trigger] report.sources@[i]).name@,
        (#[trigger] report.sources@[j]).name@,
    ) by {
        assert(text::comes_before(rows[i].name, rows[j].name));
    }
    if names.to_set().contains(name) {
        let i = choose|i: int| 0 <= i < names.len() && names[i] == name;
        assert(report.sources@[i].name@ == name);
    }
    if exists|i: int| 0 <= i < report.sources@.len() && (#[trigger] report.sources@[i]).name@ == name {
        let i = choose|i: int|
            0 <= i < report.sources@.len() && (#[trigger] report.sources@[i]).name@ == name;
        assert(names[i] == name);
        assert(names.to_set().contains(name));
    }
}

} // verus!
