//! The offline geocoder.

use homeward::geocode::{
    enrich_record, parse_found_location, EnrichmentResult, Gazetteer, GeocodeError,
    LocationSource, ParsedLocation,
};
use homeward::geocode::parser::{is_state_abbr, last_five_digit_token};
use homeward::schema::{
    Availability, ChipStatus, IntakeType, PetRecord, ShelterLocation, SourceId, Species, TosClass,
};
use homeward::time::Timestamp;

const MINI_CSV: &str = "P,Austin,TX,30.2672,-97.7431,\nZ,78701,TX,30.2707,-97.7424\n";

const CSV: &str = "# kind,name,state,lat,lon,zip
P,Austin,TX,30.2672,-97.7431,
P,Dallas,TX,32.7767,-96.7970,
P,Long Beach,CA,33.7701,\u{2212}118.1937,
P,Sonoma,CA,38.2919,-122.4580,

Z,78701,TX,30.2707,-97.7424
Z,90801,CA,33.7830,-118.1892
";

fn gz() -> Gazetteer {
    Gazetteer::load_csv(CSV).expect("load")
}

fn make_record(found_text: Option<&str>, location: Option<ShelterLocation>) -> PetRecord {
    let now = Timestamp::new(1_705_312_800, 0).expect("instant");
    PetRecord {
        canonical_id: 1,
        source: SourceId::new("test", TosClass::OpenData),
        source_animal_id: None,
        species: Species::Dog,
        breed_primary: None,
        breed_secondary: None,
        sex: None,
        age_bucket: None,
        size: None,
        colors: vec![],
        markings_text: None,
        intake_type: IntakeType::Stray,
        availability: Availability::InCustody,
        chip_status: ChipStatus::NotScanned,
        location,
        found_location_text: found_text.map(|s| s.to_owned()),
        photos: vec![],
        first_seen: now,
        last_seen: now,
        last_confirmed: None,
        intake_date: None,
        outcome_date: None,
        secondary_provenances: vec![],
    }
}

/// A coordinate in degrees.
fn degrees(n: i64, precision: u8) -> f64 {
    n as f64 / 10_f64.powi(i32::from(precision))
}

// Gazetteer.

#[test]
fn parse_place_row() {
    let gz = Gazetteer::load_csv(MINI_CSV).expect("parse");
    let entry = gz.lookup_name_state("austin", "TX").expect("found");
    assert_eq!(entry.state, "TX");
    let lat: f64 = entry.lat.parse().expect("number");
    assert!((lat - 30.2672_f64).abs() < 0.001);
}

#[test]
fn parse_zip_row() {
    let gz = Gazetteer::load_csv(MINI_CSV).expect("parse");
    let entry = gz.lookup_zip("78701").expect("found");
    assert_eq!(entry.state, "TX");
}

#[test]
fn unknown_zip_returns_none() {
    let gz = Gazetteer::load_csv(MINI_CSV).expect("parse");
    assert!(gz.lookup_zip("00000").is_none());
}

#[test]
fn case_insensitive_name() {
    let gz = Gazetteer::load_csv(MINI_CSV).expect("parse");
    assert!(gz.lookup_name_state("AUSTIN", "TX").is_some());
    assert!(gz.lookup_name_state("austin", "tx").is_some());
}

#[test]
fn names_need_a_state() {
    let gz = gz();
    assert!(gz.lookup("Austin", None).is_none());
    assert!(gz.lookup("Austin", Some("TX")).is_some());
    assert!(gz.lookup("Austin", Some("CA")).is_none());
}

#[test]
fn later_rows_take_the_place_of_earlier_ones() {
    let gz = Gazetteer::load_csv("P,A,TX,1,2,99999\nP,a,tx,3,4,99999,x\nP,B,TX,5,6,99999\n")
        .expect("parse");
    assert_eq!(gz.lookup_name_state("A", "TX").expect("found").lat, "3");
    assert_eq!(gz.lookup_zip("99999").expect("found").lat, "5");
    assert_eq!(gz.lookup_zip("99999,x").expect("found").lat, "3");
}

fn fault(csv: &str) -> (usize, String) {
    match Gazetteer::load_csv(csv) {
        Err(GeocodeError::MalformedRow { line, reason }) => (line, reason),
        other => panic!("expected a malformed row, got {other:?}"),
    }
}

#[test]
fn malformed_rows_are_refused() {
    assert_eq!(fault("\n# note\nP,Austin,TX"), (3, "expected ≥5 columns, got 3".to_owned()));
    assert_eq!(fault("P,A,TX,north,1"), (1, "invalid lat \"north\"".to_owned()));
    assert_eq!(fault("P,A,TX,1,\nP,B"), (1, "invalid lon \"\"".to_owned()));
    assert_eq!(
        GeocodeError::MalformedRow { line: 3, reason: "r".to_owned() }.message(),
        "malformed gazetteer row at line 3: r"
    );
    assert_eq!(
        GeocodeError::DataRead("gone".to_owned()).message(),
        "failed to read gazetteer data: gone"
    );
    assert!(Gazetteer::load_csv("").expect("empty").lookup_zip("78701").is_none());
}

#[test]
fn ac1_gazetteer_loads_offline() {
    let gz = gz();
    assert!(
        gz.lookup_name_state("austin", "TX").is_some(),
        "Austin TX must be in the default gazetteer"
    );
}

#[test]
fn ac1_load_csv_fixture() {
    let fixture = "P,Austin,TX,30.2672,-97.7431,\nZ,78701,TX,30.2707,-97.7424\n";
    let gz = Gazetteer::load_csv(fixture).expect("fixture load must succeed");
    assert!(gz.lookup_name_state("austin", "TX").is_some());
    assert!(gz.lookup_zip("78701").is_some());
}

// Parser.

#[test]
fn parse_zip_78701() {
    let gz = gz();
    match parse_found_location("78701", &gz) {
        ParsedLocation::Resolved(loc) => {
            let lat = degrees(loc.lat.expect("lat"), loc.precision);
            assert!((lat - 30.27_f64).abs() < 0.01, "lat={lat}");
            assert_eq!(loc.state.as_deref(), Some("TX"));
        }
        other => panic!("expected Resolved, got {other:?}"),
    }
}

#[test]
fn parse_city_state_comma_austin() {
    let result = parse_found_location("Austin, TX", &gz());
    assert!(matches!(result, ParsedLocation::Resolved(_)));
}

#[test]
fn parse_city_state_comma_dallas() {
    let result = parse_found_location("Dallas, TX", &gz());
    assert!(matches!(result, ParsedLocation::Resolved(_)));
}

#[test]
fn parse_city_state_comma_long_beach() {
    let result = parse_found_location("Long Beach, CA", &gz());
    assert!(matches!(result, ParsedLocation::Resolved(_)));
}

#[test]
fn parse_city_state_space_austin() {
    let result = parse_found_location("Austin TX", &gz());
    assert!(matches!(result, ParsedLocation::Resolved(_)));
}

#[test]
fn parse_prefix_with_city_state() {
    let result = parse_found_location("Near downtown, Austin, TX", &gz());
    assert!(matches!(result, ParsedLocation::Resolved(_)));
}

#[test]
fn garbage_returns_unrecognised() {
    let result = parse_found_location("xyzzy frobnitz 99999", &gz());
    assert!(
        matches!(result, ParsedLocation::Unrecognised | ParsedLocation::NotInGazetteer),
        "expected unrecognised/not-in-gz, got {result:?}"
    );
}

#[test]
fn empty_string_returns_unrecognised() {
    assert_eq!(parse_found_location("", &gz()), ParsedLocation::Unrecognised);
}

#[test]
fn unknown_city_returns_unrecognised_or_not_in_gz() {
    let result = parse_found_location("Xanadu, TX", &gz());
    assert!(
        matches!(result, ParsedLocation::Unrecognised | ParsedLocation::NotInGazetteer),
        "expected unrecognised/not-in-gz, got {result:?}"
    );
}

#[test]
fn recognized_forms_are_told_from_others() {
    let gz = gz();
    assert_eq!(parse_found_location("99999", &gz), ParsedLocation::NotInGazetteer);
    assert_eq!(parse_found_location("Xanadu, TX", &gz), ParsedLocation::NotInGazetteer);
    assert_eq!(parse_found_location("Xanadu TX", &gz), ParsedLocation::NotInGazetteer);
    assert_eq!(parse_found_location("somewhere", &gz), ParsedLocation::Unrecognised);
    assert_eq!(parse_found_location("Austin, Texas", &gz), ParsedLocation::Unrecognised);
    assert_eq!(parse_found_location("TX", &gz), ParsedLocation::Unrecognised);
}

#[test]
fn tokens_and_states() {
    assert_eq!(last_five_digit_token("a 12345 b 67890 c"), Some("67890".to_owned()));
    assert_eq!(last_five_digit_token("123456 1234"), None);
    assert!(is_state_abbr("tx"));
    assert!(is_state_abbr("VI"));
    assert!(!is_state_abbr("Texas"));
    assert!(!is_state_abbr("XX"));
}

#[test]
fn ac2_zip_78701_resolves_to_austin_coarse() {
    let loc = match parse_found_location("78701", &gz()) {
        ParsedLocation::Resolved(l) => l,
        other => panic!("expected Resolved, got {other:?}"),
    };
    let lat = degrees(loc.lat.expect("lat must be present"), loc.precision);
    let lon = degrees(loc.lon.expect("lon must be present"), loc.precision);
    assert!((lat - 30.27_f64).abs() < 0.015, "lat={lat} not near Austin (expected ~30.27)");
    assert!(
        (lon - (-97.74_f64)).abs() < 0.015,
        "lon={lon} not near Austin (expected ~-97.74)"
    );
    assert_eq!(loc.state.as_deref(), Some("TX"), "state must be TX");
}

#[test]
fn ac2_zip_90801_resolves_to_long_beach_coarse() {
    let loc = match parse_found_location("90801", &gz()) {
        ParsedLocation::Resolved(l) => l,
        other => panic!("expected Resolved for 90801, got {other:?}"),
    };
    let lat = degrees(loc.lat.expect("lat"), loc.precision);
    assert!((lat - 33.78_f64).abs() < 0.02, "lat={lat}");
    assert_eq!(loc.state.as_deref(), Some("CA"));
}

fn assert_resolved(text: &str, gz: &Gazetteer) {
    match parse_found_location(text, gz) {
        ParsedLocation::Resolved(_) => {}
        other => panic!("{text:?} expected Resolved, got {other:?}"),
    }
}

#[test]
fn ac3_city_comma_state_forms() {
    let gz = gz();
    assert_resolved("Austin, TX", &gz);
    assert_resolved("Dallas, TX", &gz);
    assert_resolved("Long Beach, CA", &gz);
    assert_resolved("Sonoma, CA", &gz);
}

#[test]
fn ac3_city_space_state_forms() {
    let gz = gz();
    assert_resolved("Austin TX", &gz);
    assert_resolved("Dallas TX", &gz);
    assert_resolved("Long Beach CA", &gz);
}

#[test]
fn ac3_city_comma_state_with_prefix() {
    let gz = gz();
    assert_resolved("Near downtown, Austin, TX", &gz);
    assert_resolved("Found near shelter, Dallas, TX", &gz);
}

fn assert_not_resolved(text: &str, gz: &Gazetteer) {
    match parse_found_location(text, gz) {
        ParsedLocation::Resolved(loc) => {
            panic!("{text:?} should NOT have resolved, got {loc:?}")
        }
        ParsedLocation::NotInGazetteer | ParsedLocation::Unrecognised => {}
    }
}

#[test]
fn ac4_garbage_input() {
    let gz = gz();
    assert_not_resolved("xyzzy frobnitz", &gz);
    assert_not_resolved("????? ????", &gz);
    assert_not_resolved("   ", &gz);
    assert_not_resolved("", &gz);
}

#[test]
fn ac4_unknown_city() {
    let gz = gz();
    assert_not_resolved("Xanadu, TX", &gz);
    assert_not_resolved("Metropolis, NY", &gz);
    assert_not_resolved("Gotham, CA", &gz);
}

#[test]
fn ac4_partial_state_code_not_guessed() {
    assert_not_resolved("Austin T", &gz());
}

#[test]
fn ac4_number_that_is_not_a_zip() {
    let gz = gz();
    assert_not_resolved("1234", &gz);
    assert_not_resolved("123456", &gz);
}

fn assert_at_most_dp(val: f64, max_dp: u8, label: &str) {
    let scale = 10_f64.powi(i32::from(max_dp));
    let rounded = (val * scale).round() / scale;
    let diff = (val - rounded).abs();
    assert!(
        diff < 1e-9,
        "{label}: {val} has more than {max_dp} decimal places of precision (diff={diff})"
    );
}

#[test]
fn ac5_zip_result_at_precision_2() {
    let loc = match parse_found_location("78701", &gz()) {
        ParsedLocation::Resolved(l) => l,
        other => panic!("expected Resolved, got {other:?}"),
    };
    assert_eq!(loc.precision, 2, "precision field must be 2");
    if let Some(lat) = loc.lat {
        assert_at_most_dp(degrees(lat, loc.precision), 2, "lat");
    }
    if let Some(lon) = loc.lon {
        assert_at_most_dp(degrees(lon, loc.precision), 2, "lon");
    }
}

#[test]
fn ac5_city_state_result_at_precision_2() {
    let loc = match parse_found_location("Austin, TX", &gz()) {
        ParsedLocation::Resolved(l) => l,
        other => panic!("expected Resolved, got {other:?}"),
    };
    assert_eq!(loc.precision, 2, "precision field must be 2");
    if let Some(lat) = loc.lat {
        assert_at_most_dp(degrees(lat, loc.precision), 2, "lat");
    }
    if let Some(lon) = loc.lon {
        assert_at_most_dp(degrees(lon, loc.precision), 2, "lon");
    }
    assert_eq!((loc.lat, loc.lon), (Some(3027), Some(-9774)));
    assert_eq!(loc.city_county, "austin");
}

#[test]
fn coordinates_that_are_not_finite_are_left_out() {
    let gz = Gazetteer::load_csv("P,Nowhere,TX,NaN,-inf,\nP,Far,TX,1e300,2.5e-1,\n")
        .expect("numbers");
    let nowhere = gz.lookup_name_state("nowhere", "TX").expect("found").to_shelter_location();
    assert_eq!((nowhere.lat, nowhere.lon), (None, None));
    let far = gz.lookup_name_state("far", "TX").expect("found").to_shelter_location();
    assert_eq!((far.lat, far.lon), (None, Some(25)));
}

// Enrichment.

#[test]
fn fills_when_location_none() {
    let mut rec = make_record(Some("Austin, TX"), None);
    let (result, source) = enrich_record(&mut rec, &gz());
    assert_eq!(result, EnrichmentResult::Filled);
    assert_eq!(source, Some(LocationSource::FoundText));
    assert!(rec.location.is_some());
}

#[test]
fn does_not_overwrite_existing_location() {
    let existing = ShelterLocation::new(Some(3010), Some(-9750), 2, "existing".into(), None);
    let mut rec = make_record(Some("Austin, TX"), Some(existing.clone()));
    let (result, source) = enrich_record(&mut rec, &gz());
    assert_eq!(result, EnrichmentResult::AlreadySet);
    assert!(source.is_none());
    let loc = rec.location.expect("location");
    assert_eq!(loc.lat, existing.lat);
    assert_eq!(loc.lon, existing.lon);
    assert_eq!(loc.city_county, existing.city_county);
}

#[test]
fn no_found_text_returns_not_resolved() {
    let mut rec = make_record(None, None);
    let (result, source) = enrich_record(&mut rec, &gz());
    assert_eq!(result, EnrichmentResult::NotResolved);
    assert!(source.is_none());
    assert!(rec.location.is_none());
}

#[test]
fn garbage_text_returns_not_resolved() {
    let mut rec = make_record(Some("xyzzy frobnitz"), None);
    let (result, _) = enrich_record(&mut rec, &gz());
    assert_eq!(result, EnrichmentResult::NotResolved);
    assert!(rec.location.is_none());
}

#[test]
fn idempotent_two_runs_same_result() {
    let mut rec = make_record(Some("Austin, TX"), None);
    let gz = gz();
    let (result1, _) = enrich_record(&mut rec, &gz);
    assert_eq!(result1, EnrichmentResult::Filled);
    let (result2, _) = enrich_record(&mut rec, &gz);
    assert_eq!(result2, EnrichmentResult::AlreadySet);
    let loc = rec.location.expect("location");
    assert_eq!(loc.precision, 2);
}

#[test]
fn provenance_tagged_as_found_text() {
    let mut rec = make_record(Some("78701"), None);
    let (result, source) = enrich_record(&mut rec, &gz());
    assert_eq!(result, EnrichmentResult::Filled);
    assert_eq!(source, Some(LocationSource::FoundText));
}

#[test]
fn ac10_workspace_api_surface_compiles() {
    let gz = gz();
    let result = parse_found_location("Austin, TX", &gz);
    assert!(matches!(result, ParsedLocation::Resolved(_)));
    let mut rec = make_record(Some("Dallas, TX"), None);
    let (result, _) = enrich_record(&mut rec, &gz);
    assert!(rec.location.is_some(), "Dallas TX must resolve; result={result:?}");
}

#[test]
fn ac6_fills_when_location_none() {
    let mut rec = make_record(Some("Austin, TX"), None);
    let (result, _) = enrich_record(&mut rec, &gz());
    assert_eq!(result, EnrichmentResult::Filled);
    assert!(rec.location.is_some(), "location must be filled");
}

#[test]
fn ac6_no_overwrite_existing_location() {
    let shelter_loc = ShelterLocation::new(
        Some(3010),
        Some(-9750),
        2,
        "shelter-city".to_owned(),
        Some("TX".to_owned()),
    );
    let original_lat = shelter_loc.lat;
    let original_lon = shelter_loc.lon;
    let original_city = shelter_loc.city_county.clone();

    let mut rec = make_record(Some("Austin, TX"), Some(shelter_loc));
    let (result, _) = enrich_record(&mut rec, &gz());
    assert_eq!(result, EnrichmentResult::AlreadySet);

    let loc = rec.location.expect("location must still be present");
    assert_eq!(loc.lat, original_lat, "lat must not change");
    assert_eq!(loc.lon, original_lon, "lon must not change");
    assert_eq!(loc.city_county, original_city, "city must not change");
}

#[test]
fn ac7_provenance_tag_is_found_text() {
    let mut rec = make_record(Some("Austin, TX"), None);
    let (result, source) = enrich_record(&mut rec, &gz());
    assert_eq!(result, EnrichmentResult::Filled, "should have filled");
    assert_eq!(
        source,
        Some(LocationSource::FoundText),
        "source must be FoundText, not Shelter"
    );
}

#[test]
fn ac7_shelter_location_has_no_found_text_tag() {
    let shelter_loc = ShelterLocation::new(
        Some(3027),
        Some(-9774),
        2,
        "Austin".into(),
        Some("TX".into()),
    );
    let mut rec = make_record(None, Some(shelter_loc));
    let (_result, source) = enrich_record(&mut rec, &gz());
    assert!(
        source.is_none(),
        "shelter-reported location must not be tagged FoundText"
    );
}

#[test]
fn ac8_idempotent_run_twice() {
    let gz = gz();
    let mut rec = make_record(Some("Austin, TX"), None);

    let (r1, _s1) = enrich_record(&mut rec, &gz);
    assert_eq!(r1, EnrichmentResult::Filled);
    let loc_after_first = rec.location.clone().expect("filled after first run");

    let (r2, s2) = enrich_record(&mut rec, &gz);
    assert_eq!(r2, EnrichmentResult::AlreadySet);
    assert!(s2.is_none(), "no source on second run");
    let loc_after_second = rec.location.clone().expect("still set after second run");

    assert_eq!(loc_after_first.lat, loc_after_second.lat, "lat unchanged");
    assert_eq!(loc_after_first.lon, loc_after_second.lon, "lon unchanged");
    assert_eq!(loc_after_first.city_county, loc_after_second.city_county, "city unchanged");
    assert_eq!(loc_after_first.precision, loc_after_second.precision, "precision unchanged");
}

fn state_filter(record: &PetRecord, state: &str) -> bool {
    record
        .location
        .as_ref()
        .and_then(|loc| loc.state.as_deref())
        .map(|s| s.eq_ignore_ascii_case(state))
        .unwrap_or(false)
}

fn bbox_filter(record: &PetRecord, min_lat: f64, max_lat: f64, min_lon: f64, max_lon: f64) -> bool {
    record
        .location
        .as_ref()
        .map(|loc| {
            let lat = loc.lat.map_or(f64::NAN, |n| degrees(n, loc.precision));
            let lon = loc.lon.map_or(f64::NAN, |n| degrees(n, loc.precision));
            lat >= min_lat && lat <= max_lat && lon >= min_lon && lon <= max_lon
        })
        .unwrap_or(false)
}

#[test]
fn ac9_enriched_record_passes_state_filter() {
    let mut rec = make_record(Some("Austin, TX"), None);
    let (result, _) = enrich_record(&mut rec, &gz());
    assert_eq!(result, EnrichmentResult::Filled);
    assert!(state_filter(&rec, "TX"), "enriched record should pass TX state filter");
}

#[test]
fn ac9_enriched_record_passes_bbox_filter_for_austin() {
    let mut rec = make_record(Some("78701"), None);
    let (result, _) = enrich_record(&mut rec, &gz());
    assert_eq!(result, EnrichmentResult::Filled);
    assert!(
        bbox_filter(&rec, 29.5, 31.0, -98.5, -97.0),
        "enriched record should be inside Austin TX bounding box"
    );
}

#[test]
fn ac9_un_enriched_record_fails_filter() {
    let mut rec = make_record(Some("xyzzy frobnitz"), None);
    let (result, _) = enrich_record(&mut rec, &gz());
    assert_eq!(result, EnrichmentResult::NotResolved);
    assert!(
        !state_filter(&rec, "TX"),
        "un-enriched record must NOT pass state filter"
    );
}
