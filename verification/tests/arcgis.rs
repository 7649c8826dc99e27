//! The ArcGIS connector.

use homeward::catalog::ArcGisConfig;
use homeward::connectors::arcgis::{
    normalize_arcgis_record, parse_arcgis_intake_type, ArcGisConnector, ArcGisPoll,
};
use homeward::connectors::socrata::SocrataColumnMap;
use homeward::schema::{IntakeType, Species, Stamp};
use homeward::time::Timestamp;
use serde_json::Value;

fn json(text: &str) -> Value {
    serde_json::from_str(text).expect("test document")
}

fn at(secs: i64) -> Timestamp {
    Timestamp::new(secs, 0).expect("instant")
}

fn test_config() -> ArcGisConfig {
    ArcGisConfig {
        name: "test-arcgis".to_owned(),
        service_url:
            "https://services.arcgis.com/TEST/arcgis/rest/services/Intakes/FeatureServer/0"
                .to_owned(),
        column_map: SocrataColumnMap {
            animal_id: "AnimalID".to_owned(),
            animal_type: "Species".to_owned(),
            intake_type: "IntakeType".to_owned(),
            outcome_date: None,
            kennel_status: None,
            found_location: Some("FoundLocation".to_owned()),
            chip_status: None,
            intake_date: Some("IntakeDate".to_owned()),
            breed: Some("Breed".to_owned()),
            name: Some("AnimalName".to_owned()),
            color: Some("Color".to_owned()),
        },
    }
}

fn fixture_geojson_mixed() -> Value {
    json(
        r#"{
            "type": "FeatureCollection",
            "features": [
                {
                    "type": "Feature",
                    "properties": {
                        "AnimalID": "A001",
                        "Species": "DOG",
                        "IntakeType": "STRAY",
                        "FoundLocation": "123 Main St",
                        "IntakeDate": "2024-01-15T10:30:00",
                        "Breed": "Labrador Mix",
                        "AnimalName": "Max",
                        "Color": "Black"
                    },
                    "geometry": { "type": "Point", "coordinates": [-97.7431, 30.2672] }
                },
                {
                    "type": "Feature",
                    "properties": {
                        "AnimalID": "A002",
                        "Species": "CAT",
                        "IntakeType": "OWNER SURRENDER",
                        "FoundLocation": null,
                        "IntakeDate": "2024-01-15T11:00:00",
                        "Breed": "Domestic Short Hair",
                        "AnimalName": "Luna",
                        "Color": "Orange"
                    },
                    "geometry": { "type": "Point", "coordinates": [-97.7400, 30.2650] }
                }
            ],
            "exceededTransferLimit": false
        }"#,
    )
}

fn fixture_page1() -> Value {
    json(
        r#"{
            "type": "FeatureCollection",
            "features": [
                {
                    "type": "Feature",
                    "properties": {
                        "AnimalID": "B001",
                        "Species": "DOG",
                        "IntakeType": "STRAY",
                        "IntakeDate": "2024-02-01T09:00:00",
                        "Breed": "Mixed Breed",
                        "Color": "Brown"
                    },
                    "geometry": null
                }
            ],
            "exceededTransferLimit": true
        }"#,
    )
}

fn fixture_page2() -> Value {
    json(
        r#"{
            "type": "FeatureCollection",
            "features": [
                {
                    "type": "Feature",
                    "properties": {
                        "AnimalID": "B002",
                        "Species": "CAT",
                        "IntakeType": "FOUND",
                        "IntakeDate": "2024-02-01T10:00:00",
                        "Breed": "Domestic Long Hair",
                        "Color": "White"
                    },
                    "geometry": null
                }
            ],
            "exceededTransferLimit": false
        }"#,
    )
}

#[test]
fn ac1_poll_none_returns_stray_records() {
    let config = test_config();
    let body = fixture_geojson_mixed();

    let features = body["features"].as_array().unwrap();
    let mut records = Vec::new();
    for feature in features {
        let props = &feature["properties"];
        if let Ok(Some(rec)) = normalize_arcgis_record(props, &config) {
            records.push(rec);
        }
    }

    assert_eq!(records.len(), 1, "only STRAY records should survive");
    let rec = &records[0];
    assert_eq!(rec.source_animal_id.as_deref(), Some("A001"));
    assert_eq!(rec.species, Species::Dog);
    assert_eq!(rec.intake_type, IntakeType::Stray);
    assert_eq!(rec.found_location_text.as_deref(), Some("123 Main St"));
    assert_eq!(rec.breed_primary.as_deref(), Some("Labrador Mix"));

    let connector = ArcGisConnector::new(config.clone());
    let prov = connector.provenance();
    assert_eq!(prov.source_url.as_deref(), Some(&*config.service_url));
    assert!(prov.source_url.as_deref().unwrap().starts_with("https://services.arcgis.com/"));
}

#[test]
fn ac2_timestamp_cursor_builds_epoch_ms_where_clause() {
    let connector = ArcGisConnector::new(test_config());
    let ts = at(1_704_067_200);
    let expected_ms: i64 = 1_704_067_200_000;

    let url = connector.build_url(0, Some(&ts)).unwrap();
    let url_str = url.as_str();

    assert!(
        url_str.contains(&expected_ms.to_string()),
        "URL should contain epoch-ms timestamp {expected_ms}, got: {url_str}"
    );
    assert!(
        url_str.contains("EditDate"),
        "URL should reference EditDate field, got: {url_str}"
    );
}

#[test]
fn ac3_paging_exceeded_transfer_limit() {
    let config = test_config();

    let page1 = fixture_page1();
    let exceeded = page1["exceededTransferLimit"].as_bool().unwrap_or(false);
    assert!(exceeded, "page 1 should set exceededTransferLimit=true");

    let features1 = page1["features"].as_array().unwrap();
    let mut records = Vec::new();
    for feature in features1 {
        let props = &feature["properties"];
        if let Ok(Some(rec)) = normalize_arcgis_record(props, &config) {
            records.push(rec);
        }
    }

    let page2 = fixture_page2();
    let exceeded2 = page2["exceededTransferLimit"].as_bool().unwrap_or(false);
    assert!(!exceeded2, "page 2 should set exceededTransferLimit=false");

    let features2 = page2["features"].as_array().unwrap();
    for feature in features2 {
        let props = &feature["properties"];
        if let Ok(Some(rec)) = normalize_arcgis_record(props, &config) {
            records.push(rec);
        }
    }

    assert_eq!(records.len(), 2, "both pages should contribute records");
    let ids: Vec<_> =
        records.iter().map(|r| r.source_animal_id.as_deref().unwrap_or("")).collect();
    assert!(ids.contains(&"B001"), "page 1 record B001 missing");
    assert!(ids.contains(&"B002"), "page 2 record B002 missing");
}

#[test]
fn a_poll_follows_the_transfer_limit() {
    let connector = ArcGisConnector::new(test_config());
    let mut poll = connector.start_poll(&None);
    let first = poll.next_url(&connector).expect("url");
    let mut full = fixture_page1();
    let feature = full["features"][0].clone();
    full["features"] = Value::Array(vec![feature; 1000]);
    assert_eq!(ArcGisPoll::feature_count(&full), 1000);
    let stamps: Vec<Stamp> = (0..1000).map(|id| Stamp { id, now: at(0) }).collect();
    poll.absorb(&full, &connector.config, &stamps);
    assert!(!poll.done);
    let second = poll.next_url(&connector).expect("url");
    assert_ne!(first, second);
    assert!(second.as_str().contains("resultOffset=1000"));
    poll.absorb(&fixture_page2(), &connector.config, &vec![Stamp { id: 2000, now: at(0) }]);
    assert!(poll.done);
    assert_eq!(poll.records.len(), 1001);
    assert_eq!(poll.records[1000].canonical_id, 2000);
}

#[test]
fn a_short_page_that_was_cut_off_is_followed_by_another() {
    let connector = ArcGisConnector::new(test_config());
    let mut poll = connector.start_poll(&None);
    let first = poll.next_url(&connector).expect("url");
    assert!(first.as_str().contains("resultOffset=0"));
    poll.absorb(&fixture_page1(), &connector.config, &vec![Stamp { id: 1, now: at(0) }]);
    assert!(!poll.done);
    let second = poll.next_url(&connector).expect("url");
    assert!(second.as_str().contains("resultOffset=1000"));
    poll.absorb(&fixture_page2(), &connector.config, &vec![Stamp { id: 2, now: at(0) }]);
    assert!(poll.done);
    let ids: Vec<_> = poll.records.iter().map(|r| r.source_animal_id.as_deref()).collect();
    assert_eq!(ids, [Some("B001"), Some("B002")]);
}

#[test]
fn ac4_stray_filter() {
    let config = test_config();
    let body = fixture_geojson_mixed();

    let features = body["features"].as_array().unwrap();
    let records: Vec<_> = features
        .iter()
        .filter_map(|f| normalize_arcgis_record(&f["properties"], &config).ok().flatten())
        .collect();

    assert_eq!(records.len(), 1);
    assert_eq!(records[0].intake_type, IntakeType::Stray);
    assert_eq!(records[0].source_animal_id.as_deref(), Some("A001"));
}

#[test]
fn found_maps_to_found_report() {
    assert_eq!(parse_arcgis_intake_type("FOUND"), IntakeType::FoundReport);
    assert_eq!(parse_arcgis_intake_type("STRAY"), IntakeType::Stray);
    assert_eq!(parse_arcgis_intake_type("STRAY INCOMING"), IntakeType::Stray);
}

#[test]
fn epoch_ms_intake_date_parsed() {
    let config = ArcGisConfig {
        name: "t".to_owned(),
        service_url: "https://example.com/FeatureServer/0".to_owned(),
        column_map: SocrataColumnMap {
            animal_id: "ID".to_owned(),
            animal_type: "Type".to_owned(),
            intake_type: "IntakeType".to_owned(),
            intake_date: Some("IntakeDate".to_owned()),
            outcome_date: None,
            kennel_status: None,
            found_location: None,
            chip_status: None,
            breed: None,
            name: None,
            color: None,
        },
    };
    let props = json(
        r#"{"ID": "X1", "Type": "DOG", "IntakeType": "STRAY", "IntakeDate": 1705315800000}"#,
    );
    let result = normalize_arcgis_record(&props, &config).unwrap();
    assert!(result.is_some(), "STRAY DOG with epoch-ms date should produce a record");
    let rec = result.unwrap();
    assert!(rec.intake_date.is_some(), "intake_date should be parsed from epoch-ms");
    assert_eq!(rec.intake_date, Some(at(1_705_315_800)));
}

#[test]
fn an_unchanged_layer_ends_a_poll() {
    let connector = ArcGisConnector::new(test_config());
    let mut poll = connector.start_poll(&None);
    poll.not_modified();
    assert!(poll.done);
    assert!(poll.records.is_empty());
}
