//! The OpenDataSoft connector.

use homeward::catalog::OpenDataSoftConfig;
use homeward::connectors::opendatasoft::{
    is_stray_value, normalize_ods_record, ods_fields, ods_fields_url, ods_sample,
    ods_sample_url, parse_ods_datetime, OdsRecord, OdsResponse, OpenDataSoftConnector,
};
use homeward::connectors::socrata::SocrataColumnMap;
use homeward::probe::ProbeError;
use homeward::schema::{Cursor, IntakeType, Species, Stamp, TosClass};
use homeward::time::Timestamp;
use serde_json::Value;

fn at(secs: i64) -> Timestamp {
    Timestamp::new(secs, 0).expect("instant")
}

fn make_config() -> OpenDataSoftConfig {
    OpenDataSoftConfig {
        name: "test-ods".to_owned(),
        base_url: "https://data.example.org".to_owned(),
        dataset_id: "animal-shelter-intakes".to_owned(),
        column_map: SocrataColumnMap {
            animal_id: "animal_id".to_owned(),
            animal_type: "species".to_owned(),
            intake_type: "intake_condition".to_owned(),
            outcome_date: None,
            kennel_status: None,
            found_location: Some("found_location".to_owned()),
            chip_status: None,
            intake_date: Some("intake_date".to_owned()),
            breed: Some("breed".to_owned()),
            name: Some("name".to_owned()),
            color: Some("color".to_owned()),
        },
    }
}

fn fixture_mixed_response() -> &'static str {
    r#"{
        "total_count": 2,
        "results": [
            {
                "record": {
                    "id": "rec-001",
                    "timestamp": "2024-01-15T10:00:00Z",
                    "fields": {
                        "animal_id": "ODS-001",
                        "species": "Dog",
                        "intake_condition": "STRAY",
                        "found_location": "123 Main St",
                        "intake_date": "2024-01-15T10:00:00Z",
                        "breed": "Labrador Mix",
                        "name": "Buddy",
                        "color": "Black/White"
                    }
                }
            },
            {
                "record": {
                    "id": "rec-002",
                    "timestamp": "2024-01-16T09:00:00Z",
                    "fields": {
                        "animal_id": "ODS-002",
                        "species": "Cat",
                        "intake_condition": "Owner Surrender",
                        "found_location": "",
                        "intake_date": "2024-01-16T09:00:00Z",
                        "breed": "Domestic Shorthair",
                        "name": "Whiskers",
                        "color": "Orange"
                    }
                }
            }
        ]
    }"#
}

fn fixture_empty_response() -> &'static str {
    r#"{"total_count": 0, "results": []}"#
}

fn page(text: &str) -> OdsResponse {
    let document: Value = serde_json::from_str(text).expect("parse fixture");
    OdsResponse {
        total_count: document["total_count"].as_u64().expect("total_count"),
        results: document["results"]
            .as_array()
            .expect("results array")
            .iter()
            .map(|r| OdsRecord {
                id: r["record"]["id"].as_str().map(|s| s.to_owned()),
                timestamp: r["record"]["timestamp"].as_str().map(|s| s.to_owned()),
                fields: r["record"]["fields"].clone(),
            })
            .collect(),
    }
}

#[test]
fn ac1_poll_none_fixture_returns_stray_records() {
    let config = make_config();
    let mut records = Vec::new();
    for record in page(fixture_mixed_response()).results.iter() {
        match normalize_ods_record(record, &config) {
            Ok(Some(rec)) => records.push(rec),
            Ok(None) => {}
            Err(e) => panic!("unexpected error: {}", e.message()),
        }
    }

    assert_eq!(records.len(), 1, "only STRAY records should survive");
    let rec = &records[0];
    assert_eq!(rec.species, Species::Dog);
    assert_eq!(rec.intake_type, IntakeType::Stray);
    assert_eq!(rec.source_animal_id.as_deref(), Some("ODS-001"));
    assert_eq!(rec.found_location_text.as_deref(), Some("123 Main St"));
    assert_eq!(rec.source.name, "test-ods");
    assert_eq!(rec.source.tos_class, TosClass::OpenData);
}

#[test]
fn ac3_only_stray_intake_records_survive() {
    let config = make_config();
    let mut stray_count = 0usize;
    let mut total = 0usize;

    for record in page(fixture_mixed_response()).results.iter() {
        total += 1;
        match normalize_ods_record(record, &config) {
            Ok(Some(_)) => stray_count += 1,
            Ok(None) => {}
            Err(e) => panic!("unexpected error: {}", e.message()),
        }
    }

    assert_eq!(total, 2, "fixture has 2 rows");
    assert_eq!(stray_count, 1, "only 1 should survive (STRAY dog)");
}

#[test]
fn ac2_cursor_timestamp_builds_odsql_where() {
    let connector = OpenDataSoftConnector::new(make_config());
    let ts = at(1_704_844_800);
    let url = connector.build_url(0, Some(&ts)).expect("build_url should succeed");

    let url_str = url.to_string();
    assert!(
        url_str.contains("intake_date"),
        "where clause should reference intake_date: {url_str}"
    );
    assert!(
        url_str.contains("2024-01-10"),
        "where clause should contain the timestamp: {url_str}"
    );
    assert!(
        url_str.contains("explore/v2.1"),
        "URL should use ODS Explore API: {url_str}"
    );
}

#[test]
fn ac2_empty_result_returns_ok_empty_vec() {
    let empty = page(fixture_empty_response());
    assert_eq!(empty.results.len(), 0);
    assert_eq!(empty.total_count, 0);
    let connector = OpenDataSoftConnector::new(make_config());
    let mut poll = connector.start_poll(&None);
    poll.absorb(&empty, &connector.config, &vec![]);
    assert!(poll.done);
    assert!(poll.records.is_empty());
}

#[test]
fn a_poll_takes_its_page_in() {
    let connector = OpenDataSoftConnector::new(make_config());
    let mut poll = connector.start_poll(&Some(Cursor::Timestamp(at(1_704_844_800))));
    let url = poll.next_url(&connector).expect("url");
    assert_eq!(url, connector.build_url(0, Some(&at(1_704_844_800))).expect("url"));
    let stamps = vec![Stamp { id: 4, now: at(0) }, Stamp { id: 5, now: at(0) }];
    poll.absorb(&page(fixture_mixed_response()), &connector.config, &stamps);
    assert!(poll.done);
    assert_eq!(poll.records.len(), 1);
    assert_eq!(poll.records[0].canonical_id, 4);
    assert_eq!(poll.records[0].last_seen, at(1_705_312_800));
}

#[test]
fn ac1_provenance_tagged_with_ods_family() {
    let connector = OpenDataSoftConnector::new(make_config());
    let prov = connector.provenance();
    let url = prov.source_url.expect("source_url should be set");
    assert!(
        url.contains("explore/v2.1"),
        "provenance URL should reference ODS API: {url}"
    );
    assert_eq!(prov.source.tos_class, TosClass::OpenData);
    assert_eq!(prov.source.name, "test-ods");
}

#[test]
fn stray_values_match_known_tokens() {
    assert!(is_stray_value("STRAY"));
    assert!(is_stray_value("Stray"));
    assert!(is_stray_value("FOUND"));
    assert!(is_stray_value("found"));
    assert!(is_stray_value("WILDLIFE"));
    assert!(is_stray_value("CONFISCATED"));
    assert!(!is_stray_value("Owner Surrender"));
    assert!(!is_stray_value("Transfer"));
    assert!(!is_stray_value("Adoptable"));
}

#[test]
fn ods_datetime_formats_parse() {
    assert!(parse_ods_datetime("2024-01-15T10:00:00Z").is_some());
    assert!(parse_ods_datetime("2024-01-15T10:00:00+00:00").is_some());
    assert!(parse_ods_datetime("2024-01-15T10:00:00.000").is_some());
    assert!(parse_ods_datetime("2024-01-15").is_some());
    assert!(parse_ods_datetime("not-a-date").is_none());
}

#[test]
fn datasets_are_described_by_fields_and_a_sample() {
    assert!(ods_fields_url("https://data.example.org/", "d").contains("explore/v2.1"));
    assert!(ods_sample_url("https://data.example.org/", "d").contains("explore/v2.1"));
    assert!(matches!(ods_fields("no document"), Err(ProbeError::Json(_))));
    assert_eq!(ods_sample(None), Value::Null);
}

#[test]
fn an_unchanged_dataset_ends_a_poll() {
    let connector = OpenDataSoftConnector::new(make_config());
    let mut poll = connector.start_poll(&None);
    poll.not_modified();
    assert!(poll.done);
    assert!(poll.records.is_empty());
}
