//! The coverage report.

use homeward::coverage::{
    build_report, build_report_at, catalog_documented_gaps, derive_status, derive_status_at,
    metro_from_name, print_human_report, sorted_names, CoverageArgs, CoverageReport,
    SourceStats, SourceStatus, StoreContents, RECENT_WINDOW_SECS, STALE_MULTIPLIER,
};
use homeward::registry::ConnectorRegistry;
use homeward::schema::{
    Availability, ChipStatus, IntakeType, PetRecord, ShelterLocation, SourceId, Species, TosClass,
};
use homeward::table::Table;
use homeward::time::Timestamp;

fn at(secs: i64) -> Timestamp {
    Timestamp::new(secs, 0).expect("instant")
}

fn clock() -> i64 {
    chrono::Utc::now().timestamp()
}

fn make_registry_with_names(names: &[&str]) -> ConnectorRegistry<u8> {
    let mut reg = ConnectorRegistry::new();
    for &name in names {
        reg.register(name.to_owned(), 0);
    }
    reg
}

fn args(
    registry: &ConnectorRegistry<u8>,
    store: Option<StoreContents>,
    geo: bool,
) -> CoverageArgs<'_, u8> {
    CoverageArgs {
        store: store.map(Ok),
        json: false,
        geo,
        geo_min_count: 0,
        registry,
        cadence_hints: Table::new(),
    }
}

fn read_stats(records: i64, strays: i64, seen: Option<&str>, cursor: Option<&str>) -> SourceStats {
    SourceStats::from_store(
        Ok(records),
        Ok(strays),
        Ok(seen.map(str::to_owned)),
        Ok(cursor.map(str::to_owned)),
    )
    .expect("all queries answered")
}

fn empty_store(names: &[&str]) -> StoreContents {
    let mut stats = Table::new();
    for &name in names {
        stats.insert(name.to_owned(), read_stats(0, 0, None, None));
    }
    StoreContents { stats, records: Some(vec![]) }
}

fn stats(records: u64, last_seen: Option<i64>, last_cursor: Option<i64>) -> SourceStats {
    SourceStats {
        record_count: records,
        stray_count: 0,
        last_seen: last_seen.map(at),
        last_cursor: last_cursor.map(at),
        ever_polled: last_cursor.is_some(),
    }
}

fn record(lat: Option<i64>) -> PetRecord {
    PetRecord {
        canonical_id: 1,
        source: SourceId::new("src", TosClass::OpenData),
        source_animal_id: None,
        species: Species::Dog,
        breed_primary: None,
        breed_secondary: None,
        sex: None,
        age_bucket: None,
        size: None,
        colors: vec![],
        markings_text: None,
        intake_type: IntakeType::Stray,
        availability: Availability::InCustody,
        chip_status: ChipStatus::NotScanned,
        location: Some(ShelterLocation::new(lat, Some(-9774), 2, "TestCity".to_owned(), None)),
        found_location_text: None,
        photos: vec![],
        first_seen: at(0),
        last_seen: at(0),
        last_confirmed: None,
        intake_date: None,
        outcome_date: None,
        secondary_provenances: vec![],
    }
}

#[test]
fn silent_source_when_store_has_no_records() {
    let registry = make_registry_with_names(&["austin"]);
    let report = build_report(&args(&registry, Some(empty_store(&["austin"])), false)).expect("report");
    assert_eq!(report.sources.len(), 1);
    let row = &report.sources[0];
    assert_eq!(row.name, "austin");
    assert_eq!(row.status, SourceStatus::Silent, "source with no records must be SILENT");
    assert_eq!(row.record_count, Some(0));
}

#[test]
fn json_roundtrip_silent_and_gap() {
    let registry = make_registry_with_names(&["austin"]);
    let report: CoverageReport =
        build_report(&args(&registry, Some(empty_store(&["austin"])), false)).expect("report");

    let silent = report
        .sources
        .iter()
        .find(|r| r.name == "austin")
        .expect("austin row must be present");
    assert_eq!(silent.status, SourceStatus::Silent, "austin must be SILENT");
    assert!(!report.holes.is_empty(), "holes must be non-empty — unregistered metros should appear");
    for gap in &report.holes {
        assert!(!gap.metro.is_empty(), "each gap must have a non-empty metro");
    }
}

#[test]
fn no_store_marks_unknown() {
    let registry = make_registry_with_names(&["dallas"]);
    let report = build_report(&args(&registry, None, false)).expect("report");
    assert_eq!(report.sources.len(), 1);
    let row = &report.sources[0];
    assert_eq!(row.status, SourceStatus::Unknown, "no-store must yield UNKNOWN status");
    assert!(row.record_count.is_none(), "no-store must not fabricate record counts");
    assert!(row.stray_count.is_none(), "no-store must not fabricate stray counts");
    assert!(row.last_success.is_none(), "no-store must not fabricate last_success");
}

#[test]
fn threshold_constants_are_documented() {
    assert_eq!(STALE_MULTIPLIER, 3, "STALE_MULTIPLIER must be 3");
    assert_eq!(RECENT_WINDOW_SECS, 4 * 3600, "RECENT_WINDOW_SECS must be 4 hours");
}

#[test]
fn stale_when_last_success_is_old() {
    let old = clock() - 48 * 3600;
    let stats = SourceStats {
        record_count: 100,
        stray_count: 10,
        last_seen: Some(at(old)),
        last_cursor: Some(at(old)),
        ever_polled: true,
    };
    let cadence = 4 * 3600u64;
    let status = derive_status(&stats, cadence);
    assert_eq!(
        status,
        SourceStatus::Stale,
        "48h old with 4h cadence×3=12h threshold must be STALE"
    );
}

#[test]
fn live_when_recent_and_has_records() {
    let recent = clock() - 3600;
    let stats = SourceStats {
        record_count: 50,
        stray_count: 5,
        last_seen: Some(at(recent)),
        last_cursor: Some(at(recent)),
        ever_polled: true,
    };
    let cadence = 4 * 3600u64;
    let status = derive_status(&stats, cadence);
    assert_eq!(status, SourceStatus::Live, "1h old with 4h RECENT_WINDOW must be LIVE");
}

#[test]
fn geo_fields_absent_when_geo_false() {
    let registry = make_registry_with_names(&["austin"]);
    let report = build_report(&args(&registry, None, false)).expect("report");
    assert!(report.cells.is_none(), "cells must be None when geo=false");
    assert!(report.geo_holes.is_none(), "geo_holes must be None when geo=false");
    assert!(report.ungeocoded.is_none(), "ungeocoded must be None when geo=false");
    assert_eq!(report.sources.len(), 1, "sources must be present");
    assert!(!report.generated_at.is_empty(), "generated_at must be present");
}

#[test]
fn rules_apply_in_order() {
    let now = at(1_000_000);
    let cadence = 20_000;
    let status = |s: SourceStats| derive_status_at(&s, cadence, &now);
    assert_eq!(status(stats(0, Some(999_999), Some(999_999))), SourceStatus::Silent);
    assert_eq!(status(stats(5, Some(999_999), None)), SourceStatus::Stale);
    assert_eq!(status(stats(5, None, Some(1_000_000 - 14_400))), SourceStatus::Live);
    assert_eq!(status(stats(5, None, Some(1_000_000 - 60_000))), SourceStatus::Live);
    assert_eq!(status(stats(5, None, Some(1_000_000 - 60_001))), SourceStatus::Stale);
    assert_eq!(status(stats(5, None, Some(2_000_000))), SourceStatus::Live);
    let unreadable = SourceStats { ever_polled: true, ..stats(5, Some(999_999), None) };
    assert_eq!(status(unreadable), SourceStatus::Live);
    let nothing = SourceStats { ever_polled: true, ..stats(5, None, None) };
    assert_eq!(status(nothing), SourceStatus::Stale);
    assert_eq!(
        derive_status_at(&stats(5, None, Some(0)), u64::MAX, &now),
        SourceStatus::Live
    );
}

#[test]
fn stored_values_are_read_leniently() {
    let read = read_stats(-1, 7, Some("2024-01-15T10:00:00Z"), Some("yesterday"));
    assert_eq!(read.record_count, 0);
    assert_eq!(read.stray_count, 7);
    assert_eq!(read.last_seen, Some(at(1_705_312_800)));
    assert_eq!(read.last_cursor, None);
    assert!(read.ever_polled);
    let nothing = read_stats(0, 0, None, None);
    assert_eq!(nothing.record_count, 0);
    assert_eq!(nothing.last_cursor, None);
    assert!(!nothing.ever_polled);
}

#[test]
fn a_store_that_cannot_be_queried_is_an_error() {
    let failed = || "no such table: source_links".to_owned();
    let later = || "no such table: source_cursors".to_owned();
    let first = SourceStats::from_store(Err(failed()), Err(later()), Ok(None), Ok(None));
    assert_eq!(first, Err(failed()));
    assert_eq!(SourceStats::from_store(Ok(1), Err(failed()), Ok(None), Ok(None)), Err(failed()));
    assert_eq!(SourceStats::from_store(Ok(1), Ok(0), Err(failed()), Err(later())), Err(failed()));
    assert_eq!(SourceStats::from_store(Ok(1), Ok(0), Ok(None), Err(later())), Err(later()));

    let registry = make_registry_with_names(&["austin"]);
    let unread = || CoverageArgs { store: Some(Err(failed())), ..args(&registry, None, false) };
    assert_eq!(build_report(&unread()), Err(failed()));
    assert_eq!(build_report_at(&unread(), &at(0)), Err(failed()));
}

#[test]
fn metros_are_derived_from_names() {
    assert_eq!(metro_from_name("austin"), "Austin, TX");
    assert_eq!(metro_from_name("dallas"), "Dallas, TX");
    assert_eq!(metro_from_name("sonoma"), "Sonoma County, CA");
    assert_eq!(metro_from_name("long_beach"), "Long Beach, CA");
    assert_eq!(metro_from_name("petfbi"), "National (PetFBI)");
    assert_eq!(metro_from_name("rescuegroups"), "National (RescueGroups)");
    assert_eq!(metro_from_name("san_jose_ca"), "San jose ca");
    assert_eq!(metro_from_name("_x"), " x");
    assert_eq!(metro_from_name("éire_north"), "éire north");
    assert_eq!(metro_from_name(""), "");
}

#[test]
fn registered_metros_are_no_gaps() {
    let all: Vec<String> =
        catalog_documented_gaps(&vec![]).into_iter().map(|g| g.metro).collect();
    assert_eq!(
        all,
        ["Los Angeles, CA", "New York, NY", "Chicago, IL", "Houston, TX", "Phoenix, AZ"]
    );
    let rest = catalog_documented_gaps(&vec!["Chicago, IL".to_owned()]);
    assert_eq!(rest.len(), 4);
    assert!(rest.iter().all(|g| g.metro != "Chicago, IL"));
    assert_eq!(rest[3].note.as_deref(), Some("MCACC dataset removed from Socrata 2023"));
}

#[test]
fn rows_do_not_depend_on_the_order_of_registration() {
    let one = make_registry_with_names(&["sonoma", "austin", "dallas"]);
    let two = make_registry_with_names(&["dallas", "sonoma", "austin"]);
    let now = at(1_000_000);
    let a = build_report_at(&args(&one, None, false), &now).expect("report");
    let b = build_report_at(&args(&two, None, false), &now).expect("report");
    assert_eq!(a, b);
    let names: Vec<String> = a.sources.iter().map(|r| r.name.clone()).collect();
    assert_eq!(names, ["austin", "dallas", "sonoma"]);
    assert_eq!(a.generated_at, "1970-01-12T13:46:40+00:00");
    assert_eq!(
        sorted_names(vec!["b".to_owned(), "B".to_owned(), "a".to_owned()]),
        ["B", "a", "b"]
    );
}

#[test]
fn geography_needs_located_records() {
    let registry = make_registry_with_names(&["austin"]);
    let with = |records: Option<Vec<PetRecord>>| {
        let store = StoreContents { stats: Table::new(), records };
        build_report(&args(&registry, Some(store), true)).expect("report")
    };
    let none = with(Some(vec![record(None)]));
    assert_eq!(none.cells, None);
    assert_eq!(none.ungeocoded, Some(1));
    assert_eq!(none.geo_holes.map(|h| h.len()), Some(5));
    let some = with(Some(vec![record(None), record(Some(3027))]));
    assert_eq!(some.cells.map(|c| c.len()), Some(1));
    assert_eq!(some.ungeocoded, Some(1));
    let unread = with(None);
    assert_eq!((unread.cells, unread.geo_holes, unread.ungeocoded), (None, None, None));
    assert_eq!(unread.sources[0].status, SourceStatus::Silent);
}

#[test]
fn the_report_is_printed_as_a_table() {
    let registry = make_registry_with_names(&["austin", "dallas"]);
    let mut table = Table::new();
    table.insert("austin".to_owned(), stats(12, None, Some(1_705_312_800)));
    let store = StoreContents { stats: table, records: None };
    let report =
        build_report_at(&args(&registry, Some(store), false), &at(1_705_312_900)).expect("report");
    let lines = print_human_report(&report);
    assert_eq!(lines[0], "homeward coverage report — 2024-01-15T10:01:40+00:00");
    assert_eq!(
        lines[2],
        format!(
            "{:<20}  {:<25}  {:<26}  {:>12}  {:>11}  {}",
            "SOURCE", "METRO", "LAST_SUCCESS", "RECORDS", "STRAY", "STATUS"
        )
    );
    assert_eq!(lines[3], "-".repeat(110));
    assert_eq!(
        lines[4],
        format!(
            "{:<20}  {:<25}  {:<26}  {:>12}  {:>11}  {}",
            "austin", "Austin, TX", "2024-01-15T10:00:00Z", "12", "0", "LIVE"
        )
    );
    assert_eq!(
        lines[5],
        format!(
            "{:<20}  {:<25}  {:<26}  {:>12}  {:>11}  {}",
            "dallas", "Dallas, TX", "never", "0", "0", "SILENT"
        )
    );
    assert_eq!(lines[7], "needs-attention (1 source):");
    assert_eq!(lines[8], "  dallas [SILENT] — metro: Dallas, TX");
    assert_eq!(lines[10], "known-gaps (5 metros with no feed):");
    assert_eq!(
        lines[11],
        "  Los Angeles, CA — No open SODA dataset; LAAS uses a proprietary portal"
    );
    assert_eq!(
        lines[lines.len() - 1],
        "thresholds: STALE_MULTIPLIER=3 (cadence×3), RECENT_WINDOW_SECS=14400 (4h)"
    );
    let quiet = print_human_report(&CoverageReport { sources: vec![], holes: vec![], ..report });
    assert!(quiet.contains(&"needs-attention: none".to_owned()));
    assert!(quiet.contains(&"known-gaps: none".to_owned()));
    assert_eq!(SourceStatus::Unreachable.label(), "UNREACHABLE");
    assert_eq!(SourceStatus::Unknown.label(), "UNKNOWN");
    assert_eq!(SourceStatus::Stale.label(), "STALE");
}
