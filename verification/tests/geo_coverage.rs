//! Geographic coverage.

use homeward::geo_coverage::{
    build_geo_extension, detect_holes, rollup_records, CellId, CellStats, GeoHole,
};
use homeward::schema::{
    Availability, ChipStatus, IntakeType, PetRecord, ShelterLocation, SourceId, Species, TosClass,
};
use homeward::time::Timestamp;

fn at(secs: i64) -> Timestamp {
    Timestamp::new(secs, 0).expect("instant")
}

/// A record at a place in hundredths of a degree.
fn make_record(
    source: &str,
    lat: Option<i64>,
    lon: Option<i64>,
    intake_type: IntakeType,
) -> PetRecord {
    PetRecord {
        canonical_id: 1,
        source: SourceId::new(source, TosClass::OpenData),
        source_animal_id: None,
        species: Species::Dog,
        breed_primary: None,
        breed_secondary: None,
        sex: None,
        age_bucket: None,
        size: None,
        colors: vec![],
        markings_text: None,
        intake_type,
        availability: Availability::InCustody,
        chip_status: ChipStatus::NotScanned,
        location: lat
            .map(|la| ShelterLocation::new(Some(la), lon, 2, "TestCity".to_owned(), None)),
        found_location_text: None,
        photos: vec![],
        first_seen: at(0),
        last_seen: at(1_705_312_800),
        last_confirmed: None,
        intake_date: None,
        outcome_date: None,
        secondary_provenances: vec![],
    }
}

fn cell(id: CellId, record_count: u64, distinct_sources: u64) -> CellStats {
    CellStats {
        cell_id: id,
        center_lat: id.center_lat(),
        center_lon: id.center_lon(),
        record_count,
        stray_count: 0,
        distinct_sources,
        last_seen: None,
    }
}

#[test]
fn cell_id_deterministic_same_cell() {
    let id_a = CellId::from_lat_lon(30_265, -97_740, 3);
    let id_b = CellId::from_lat_lon(30_270, -97_745, 3);
    let are_same_or_neighbor = id_a == id_b || id_a.neighbors().contains(&id_b);
    assert!(
        are_same_or_neighbor,
        "points ~0.5 km apart in Austin must share or neighbor the same cell; got {id_a:?} vs {id_b:?}"
    );
}

#[test]
fn cell_id_is_stable() {
    let id1 = CellId::from_lat_lon(3405, -11_825, 2);
    let id2 = CellId::from_lat_lon(3405, -11_825, 2);
    assert_eq!(id1, id2, "same lat/lon must produce same CellId");
}

#[test]
fn cells_are_half_degrees_rounded_down() {
    assert_eq!(
        CellId::from_lat_lon(3405, -11_825, 2),
        CellId { lat_idx: 68, lon_idx: -237 }
    );
    assert_eq!(CellId::from_lat_lon(1, -1, 0), CellId { lat_idx: 2, lon_idx: -2 });
    assert_eq!(CellId::from_lat_lon(1, -1, 30), CellId { lat_idx: 0, lon_idx: -1 });
    assert_eq!(
        CellId::from_lat_lon(i64::MAX, i64::MIN, 0),
        CellId { lat_idx: i32::MAX, lon_idx: i32::MIN }
    );
    let id = CellId { lat_idx: 68, lon_idx: -237 };
    assert_eq!((id.center_lat(), id.center_lon()), (137, -473));
    assert_eq!(id.label(), "68:-237");
}

#[test]
fn neighbors_surround_a_cell() {
    let id = CellId { lat_idx: 0, lon_idx: 0 };
    let around = id.neighbors();
    assert!(!around.contains(&id));
    for n in around {
        assert!(n.neighbors().contains(&id));
    }
}

#[test]
fn rollup_spans_three_cells() {
    let records = vec![
        make_record("austin", Some(3027), Some(-9774), IntakeType::Stray),
        make_record("austin", Some(3028), Some(-9773), IntakeType::OwnerSurrender),
        make_record("la", Some(3405), Some(-11_825), IntakeType::Stray),
        make_record("la", Some(3406), Some(-11_826), IntakeType::FoundReport),
        make_record("nyc", Some(4071), Some(-7401), IntakeType::Transfer),
    ];

    let (cells, ungeocoded) = rollup_records(&records);
    assert_eq!(ungeocoded, 0, "no records should be ungeocoded");
    assert!(
        cells.len() >= 2,
        "records in different metros must produce ≥2 cells; got {}",
        cells.len()
    );
    let total: u64 = cells.iter().map(|c| c.record_count).sum();
    assert_eq!(total, 5, "total record_count must equal number of records");
    assert_eq!(cells.len(), 3);
}

#[test]
fn stray_count_distinct_from_record_count() {
    let records = vec![
        make_record("src", Some(3027), Some(-9774), IntakeType::Stray),
        make_record("src", Some(3027), Some(-9774), IntakeType::FoundReport),
        make_record("src", Some(3027), Some(-9774), IntakeType::OwnerSurrender),
        make_record("src", Some(3027), Some(-9774), IntakeType::Transfer),
    ];

    let (cells, _) = rollup_records(&records);
    assert_eq!(cells.len(), 1, "all records in one cell");
    let cell = &cells[0];
    assert_eq!(cell.record_count, 4, "all 4 records counted");
    assert_eq!(cell.stray_count, 2, "only Stray + FoundReport count as stray");
    assert_ne!(
        cell.stray_count, cell.record_count,
        "stray_count must differ from record_count on mixed fixture"
    );
    assert_eq!(cell.distinct_sources, 1);
}

#[test]
fn cells_gather_sources_and_the_latest_sighting() {
    let mut late = make_record("b", Some(3027), Some(-9774), IntakeType::Stray);
    late.last_seen = at(1_800_000_000);
    let records = vec![
        make_record("a", Some(3027), Some(-9774), IntakeType::Stray),
        late,
        make_record("a", Some(3027), Some(-9774), IntakeType::Stray),
    ];
    let (cells, _) = rollup_records(&records);
    assert_eq!(cells.len(), 1);
    assert_eq!(cells[0].distinct_sources, 2);
    assert_eq!(cells[0].last_seen, Some(at(1_800_000_000)));
}

#[test]
fn hole_heuristic_flags_only_genuine_hole() {
    let covered_id = CellId::from_lat_lon(3027, -9774, 2);
    let la_id = CellId::from_lat_lon(3405, -11_825, 2);
    let cells = vec![cell(covered_id, 50, 1), cell(la_id, 0, 0)];
    let holes = detect_holes(&cells);

    let la_hole_found = holes.iter().any(|h| h.cell_id == la_id);
    assert!(la_hole_found, "LA documented-gap cell must be detected as a hole");

    let austin_hole_found = holes.iter().any(|h| h.cell_id == covered_id);
    assert!(
        !austin_hole_found,
        "well-covered Austin cell must NOT be detected as a hole"
    );
}

#[test]
fn holes_ranked_by_missed_population_descending() {
    let la_id = CellId::from_lat_lon(3405, -11_825, 2);
    let ny_id = CellId::from_lat_lon(4071, -7401, 2);
    let la_neighbor_id = la_id.neighbors()[0];
    let ny_neighbor_id = ny_id.neighbors()[0];
    let cells = vec![cell(la_neighbor_id, 1000, 1), cell(ny_neighbor_id, 10, 1)];
    let holes = detect_holes(&cells);

    let la_pos = holes.iter().position(|h| h.cell_id == la_id);
    let ny_pos = holes.iter().position(|h| h.cell_id == ny_id);
    if let (Some(la_p), Some(ny_p)) = (la_pos, ny_pos) {
        assert!(
            la_p <= ny_p,
            "LA hole (higher neighbor count) must rank before NY hole; LA pos={la_p}, NY pos={ny_p}"
        );
    }
    for i in 1..holes.len() {
        assert!(
            holes[i - 1].estimated_missed_population >= holes[i].estimated_missed_population,
            "holes must be sorted descending by estimated_missed_population"
        );
    }
    assert_eq!(la_pos, Some(0));
    assert_eq!(holes.len(), 5);
}

#[test]
fn orphaned_cells_are_holes() {
    let lone = CellId { lat_idx: 10, lon_idx: 10 };
    let empty = CellId { lat_idx: 20, lon_idx: 20 };
    let deserted = CellId { lat_idx: 30, lon_idx: 30 };
    let full = CellId { lat_idx: 21, lon_idx: 20 };
    let cells =
        vec![cell(lone, 3, 0), cell(empty, 0, 0), cell(full, 7, 1), cell(deserted, 0, 0)];
    let holes = detect_holes(&cells);
    let find = |id: CellId| holes.iter().find(|h| h.cell_id == id);
    let found: &GeoHole = find(lone).expect("orphaned records");
    assert_eq!(found.estimated_missed_population, 3);
    assert_eq!(found.name, None);
    assert_eq!(found.basis, "estimated");
    assert_eq!(find(empty).expect("populated neighbors").estimated_missed_population, 7);
    assert!(find(full).is_none());
    assert!(find(deserted).is_none());
}

#[test]
fn documented_gaps_keep_their_names() {
    let holes = detect_holes(&vec![]);
    let names: Vec<&str> = holes.iter().filter_map(|h| h.name.as_deref()).collect();
    assert_eq!(
        names,
        ["Los Angeles, CA", "New York, NY", "Chicago, IL", "Houston, TX", "Phoenix, AZ"]
    );
    assert!(holes.iter().all(|h| h.estimated_missed_population == 0));
}

#[test]
fn ungeocoded_records_are_tallied() {
    let with_loc = make_record("src", Some(3027), Some(-9774), IntakeType::Stray);
    let without_loc = make_record("src", None, None, IntakeType::Unknown);

    let records = vec![with_loc, without_loc];
    let (cells, ungeocoded) = rollup_records(&records);

    assert_eq!(ungeocoded, 1, "one record with no location must be counted as ungeocoded");
    let total_in_cells: u64 = cells.iter().map(|c| c.record_count).sum();
    assert_eq!(total_in_cells, 1, "only the geocoded record must appear in cells");
}

#[test]
fn small_cells_are_left_out() {
    let records = vec![
        make_record("a", Some(3027), Some(-9774), IntakeType::Stray),
        make_record("a", Some(3027), Some(-9774), IntakeType::Stray),
        make_record("a", Some(4071), Some(-7401), IntakeType::Stray),
        make_record("a", Some(3027), None, IntakeType::Stray),
    ];
    let all = build_geo_extension(&records, 0);
    assert_eq!(all.cells.len(), 2);
    assert_eq!(all.ungeocoded, 1);
    assert_eq!(all.geo_holes.len(), 4);
    let large = build_geo_extension(&records, 2);
    assert_eq!(large.cells.len(), 1);
    assert_eq!(large.cells[0].record_count, 2);
    assert_eq!(large.geo_holes.len(), 5);
}

#[test]
fn no_external_spatial_dep() {
    let id = CellId::from_lat_lon(0, 0, 1);
    assert_eq!(id.lat_idx, 0);
    assert_eq!(id.lon_idx, 0);
}
