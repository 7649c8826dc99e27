//! The Socrata connector.

use homeward::cli;
use homeward::connectors::socrata::{
    normalize_socrata_row, normalize_socrata_row_at, parse_soda_datetime,
    parse_socrata_intake_type, validate_socrata_config, SocrataColumnMap, SocrataConfig,
    SocrataConnector, SourceCatalog,
};
use homeward::error::ConnectorError;
use homeward::schema::{
    Availability, ChipStatus, Cursor, IntakeType, Species, Stamp, TosClass,
};
use homeward::time::Timestamp;
use serde_json::Value;

fn json(text: &str) -> Value {
    serde_json::from_str(text).expect("test document")
}

fn at(secs: i64) -> Timestamp {
    Timestamp::new(secs, 0).expect("instant")
}

fn austin_row(intake_type: &str, species: &str) -> Value {
    json(&format!(
        r#"{{
            "animal_id": "A12345",
            "animal_type": "{species}",
            "intake_type": "{intake_type}",
            "found_location": "123 Main St",
            "datetime": "2024-01-15T10:00:00.000",
            "breed": "Labrador Mix",
            "name": "Buddy",
            "color": "Black/White"
        }}"#
    ))
}

fn dallas_row(intake_type: &str, species: &str, chip: &str) -> Value {
    json(&format!(
        r#"{{
            "animal_id": "D67890",
            "animal_type": "{species}",
            "intake_type": "{intake_type}",
            "kennel_status": "Available",
            "found_location": "456 Oak Ave",
            "chip_status": "{chip}",
            "intake_date": "2024-01-10T08:00:00.000",
            "breed": "Domestic Shorthair",
            "animal_name": "Whiskers",
            "color": "Orange"
        }}"#
    ))
}

#[test]
fn austin_stray_dog_normalizes() {
    let row = austin_row("STRAY", "DOG");
    let config = SocrataConfig::austin();
    let rec = normalize_socrata_row(&row, &config).expect("normalize");
    assert_eq!(rec.species, Species::Dog);
    assert_eq!(rec.intake_type, IntakeType::Stray);
    assert_eq!(rec.found_location_text.as_deref(), Some("123 Main St"));
    assert_eq!(rec.source.tos_class, TosClass::OpenData);
    assert_eq!(rec.source.name, "austin");
}

#[test]
fn a_row_is_normalized_in_full() {
    let stamp = Stamp { id: 7, now: at(1_800_000_000) };
    let rec = normalize_socrata_row_at(&austin_row("STRAY", "DOG"), &SocrataConfig::austin(), &stamp)
        .expect("normalize");
    assert_eq!(rec.canonical_id, 7);
    assert_eq!(rec.source_animal_id.as_deref(), Some("A12345"));
    assert_eq!(rec.breed_primary.as_deref(), Some("Labrador Mix"));
    assert_eq!(rec.colors, vec!["Black/White".to_owned()]);
    assert_eq!(rec.intake_date, Some(at(1_705_312_800)));
    assert_eq!(rec.outcome_date, None);
    assert_eq!(rec.location, None);
}

#[test]
fn dallas_chip_status_maps() {
    let row = dallas_row("STRAY", "CAT", "YES");
    let config = SocrataConfig::dallas();
    let rec = normalize_socrata_row(&row, &config).expect("normalize");
    assert_eq!(rec.species, Species::Cat);
    assert_eq!(rec.chip_status, ChipStatus::Scanned { chip: None });
    assert_eq!(rec.intake_type, IntakeType::Stray);
}

#[test]
fn mixed_species_both_yield_records() {
    let config = SocrataConfig::austin();
    let dog = austin_row("STRAY", "DOG");
    let cat = austin_row("STRAY", "CAT");
    let dog_rec = normalize_socrata_row(&dog, &config).expect("dog");
    let cat_rec = normalize_socrata_row(&cat, &config).expect("cat");
    assert_eq!(dog_rec.species, Species::Dog);
    assert_eq!(cat_rec.species, Species::Cat);
}

#[test]
fn socrata_photos_always_empty() {
    let row = austin_row("STRAY", "DOG");
    let config = SocrataConfig::austin();
    let rec = normalize_socrata_row(&row, &config).expect("normalize");
    assert!(rec.photos.is_empty(), "Socrata records must have no photos");
}

#[test]
fn intake_type_stray_maps_correctly() {
    assert_eq!(parse_socrata_intake_type("STRAY"), IntakeType::Stray);
    assert_eq!(parse_socrata_intake_type("OWNER SURRENDER"), IntakeType::OwnerSurrender);
    assert_eq!(parse_socrata_intake_type("FOUND REPORT"), IntakeType::FoundReport);
}

#[test]
fn outcome_date_present_means_departed() {
    let config = SocrataConfig::dallas();
    let dallas_row = json(
        r#"{
            "animal_id": "D1",
            "animal_type": "DOG",
            "intake_type": "STRAY",
            "outcome_datetime": "2024-02-01T12:00:00.000",
            "kennel_status": "Adopted",
            "intake_date": "2024-01-10T08:00:00.000"
        }"#,
    );
    let rec = normalize_socrata_row(&dallas_row, &config).expect("normalize");
    assert_eq!(rec.availability, Availability::Departed);
}

#[test]
fn unknown_species_and_missing_columns_are_errors() {
    let config = SocrataConfig::austin();
    assert!(matches!(
        normalize_socrata_row(&austin_row("STRAY", "BIRD"), &config),
        Err(ConnectorError::UnknownSpecies(_))
    ));
    assert!(matches!(
        normalize_socrata_row(&json(r#"{"animal_id": "A1"}"#), &config),
        Err(ConnectorError::UnknownSpecies(_))
    ));
}

#[test]
fn provenance_class_is_open_data() {
    let connector = SocrataConnector::new(SocrataConfig::austin());
    let prov = connector.provenance();
    assert_eq!(prov.source.tos_class, TosClass::OpenData);
}

#[test]
fn parse_soda_datetime_formats() {
    assert!(parse_soda_datetime("2024-01-15T10:00:00.000").is_some());
    assert!(parse_soda_datetime("2024-01-15 10:00:00").is_some());
    assert!(parse_soda_datetime("2024-01-15").is_some());
    assert!(parse_soda_datetime("not-a-date").is_none());
    assert_eq!(parse_soda_datetime("2024-01-15T10:00:00.000"), Some(at(1_705_312_800)));
    assert_eq!(parse_soda_datetime("2024-01-15"), Some(at(1_705_276_800)));
}

#[test]
fn pages_are_read_until_a_short_one() {
    let connector = SocrataConnector::new(SocrataConfig::austin());
    let mut poll = connector.start_poll(&Some(Cursor::Timestamp(at(1_705_312_800))));
    let url = poll.next_url(&connector, Some("token")).expect("url");
    assert_eq!(url.host_str(), Some("data.austintexas.gov"));
    assert_eq!(url.path(), "/resource/fdzn-9yqv.json");
    let query: Vec<(String, String)> =
        url.query_pairs().map(|(k, v)| (k.into_owned(), v.into_owned())).collect();
    assert!(query.contains(&("$limit".to_owned(), "1000".to_owned())));
    assert!(query.contains(&("$offset".to_owned(), "0".to_owned())));
    assert!(query.iter().any(|(_, v)| v.contains("2024-01-15T10:00:00")));
    let rows = vec![austin_row("STRAY", "DOG"), austin_row("STRAY", "BIRD")];
    let stamps = vec![Stamp { id: 1, now: at(0) }, Stamp { id: 2, now: at(0) }];
    poll.absorb(&rows, &connector.config, &stamps);
    assert!(poll.done);
    assert_eq!(poll.records.len(), 1);
    assert_eq!(poll.records[0].canonical_id, 1);
}

#[test]
fn unchanged_pages_end_a_poll() {
    let connector = SocrataConnector::new(SocrataConfig::austin());
    let mut poll = connector.start_poll(&None);
    assert!(!poll.done);
    poll.not_modified();
    assert!(poll.done);
    assert!(poll.records.is_empty());
}

// Catalog entries.

fn optional(table: &toml::Value, key: &str) -> Option<String> {
    table.get(key).and_then(|v| v.as_str()).map(|s| s.to_owned())
}

fn required(table: &toml::Value, key: &str) -> String {
    optional(table, key).expect("required key")
}

fn entries(text: &str) -> Vec<SocrataConfig> {
    let document: toml::Value = toml::from_str(text).expect("toml");
    document["socrata"]
        .as_array()
        .expect("entries")
        .iter()
        .map(|e| {
            let map = &e["column_map"];
            SocrataConfig {
                domain: required(e, "domain"),
                dataset_id: required(e, "dataset_id"),
                name: required(e, "name"),
                column_map: SocrataColumnMap {
                    animal_id: required(map, "animal_id"),
                    animal_type: required(map, "animal_type"),
                    intake_type: required(map, "intake_type"),
                    outcome_date: optional(map, "outcome_date"),
                    kennel_status: optional(map, "kennel_status"),
                    found_location: optional(map, "found_location"),
                    chip_status: optional(map, "chip_status"),
                    intake_date: optional(map, "intake_date"),
                    breed: optional(map, "breed"),
                    name: optional(map, "name"),
                    color: optional(map, "color"),
                },
                app_token_env: optional(e, "app_token_env"),
            }
        })
        .collect()
}

#[test]
fn ac1_file_loaded_config_matches_builtin() {
    let toml = r#"
[[socrata]]
name = "austin"
domain = "data.austintexas.gov"
dataset_id = "fdzn-9yqv"
app_token_env = "SOCRATA_APP_TOKEN"
[socrata.column_map]
animal_id = "animal_id"
animal_type = "animal_type"
intake_type = "intake_type"
found_location = "found_location"
intake_date = "datetime"
breed = "breed"
name = "name"
color = "color"
"#;
    let configs = SourceCatalog::from_entries(entries(toml)).expect("load");
    assert_eq!(configs.len(), 1);
    let loaded = &configs[0];
    let builtin = SocrataConfig::austin();
    assert_eq!(loaded.name, builtin.name);
    assert_eq!(loaded.domain, builtin.domain);
    assert_eq!(loaded.dataset_id, builtin.dataset_id);
    assert_eq!(loaded.column_map.animal_id, builtin.column_map.animal_id);
    assert_eq!(loaded.column_map.animal_type, builtin.column_map.animal_type);
    assert_eq!(loaded.column_map.intake_type, builtin.column_map.intake_type);
    assert_eq!(loaded.column_map.found_location, builtin.column_map.found_location);
    assert_eq!(loaded.column_map.intake_date, builtin.column_map.intake_date);
    assert_eq!(loaded.column_map.breed, builtin.column_map.breed);
    assert_eq!(loaded.column_map.name, builtin.column_map.name);
    assert_eq!(loaded.column_map.color, builtin.column_map.color);
}

#[test]
fn ac2_roundtrip_four_builtins() {
    let builtins = vec![
        SocrataConfig::austin(),
        SocrataConfig::dallas(),
        SocrataConfig::sonoma(),
        SocrataConfig::long_beach(),
    ];
    let mut toml_str = String::new();
    for cfg in &builtins {
        toml_str.push_str("[[socrata]]\n");
        toml_str.push_str(&format!("name = {:?}\n", cfg.name));
        toml_str.push_str(&format!("domain = {:?}\n", cfg.domain));
        toml_str.push_str(&format!("dataset_id = {:?}\n", cfg.dataset_id));
        if let Some(env) = &cfg.app_token_env {
            toml_str.push_str(&format!("app_token_env = {env:?}\n"));
        }
        toml_str.push_str("[socrata.column_map]\n");
        let map = &cfg.column_map;
        let columns = [
            ("animal_id", Some(map.animal_id.clone())),
            ("animal_type", Some(map.animal_type.clone())),
            ("intake_type", Some(map.intake_type.clone())),
            ("outcome_date", map.outcome_date.clone()),
            ("kennel_status", map.kennel_status.clone()),
            ("found_location", map.found_location.clone()),
            ("chip_status", map.chip_status.clone()),
            ("intake_date", map.intake_date.clone()),
            ("breed", map.breed.clone()),
            ("name", map.name.clone()),
            ("color", map.color.clone()),
        ];
        for (key, column) in columns {
            if let Some(v) = column {
                toml_str.push_str(&format!("{key} = {v:?}\n"));
            }
        }
        toml_str.push('\n');
    }
    let loaded = SourceCatalog::from_entries(entries(&toml_str)).expect("load");
    assert_eq!(loaded.len(), 4);
    assert_eq!(loaded, builtins);
}

#[test]
fn ac4_homeward_sources_env_var() {
    let toml = r#"
[[socrata]]
name = "dallas"
domain = "www.dallasopendata.com"
dataset_id = "qgg6-h4bd"
app_token_env = "SOCRATA_APP_TOKEN"
[socrata.column_map]
animal_id = "animal_id"
animal_type = "animal_type"
intake_type = "intake_type"
outcome_date = "outcome_datetime"
kennel_status = "kennel_status"
found_location = "found_location"
chip_status = "chip_status"
intake_date = "intake_date"
breed = "breed"
name = "animal_name"
color = "color"
"#;
    let configs = SourceCatalog::from_entries(entries(toml)).expect("load");
    assert_eq!(configs.len(), 1);
    assert_eq!(configs[0].name, "dallas");
    let builtin_names: Vec<String> =
        cli::built_in_sources().iter().map(|c| c.name.clone()).collect();
    assert_eq!(builtin_names, ["austin", "dallas", "sonoma", "long_beach"]);
}

#[test]
fn ac5_optional_fields_absent_are_none() {
    let toml = r#"
[[socrata]]
name = "minimal"
domain = "data.example.gov"
dataset_id = "abcd-1234"
[socrata.column_map]
animal_id = "animal_id"
animal_type = "animal_type"
intake_type = "intake_type"
"#;
    let configs = SourceCatalog::from_entries(entries(toml)).expect("load");
    assert_eq!(configs.len(), 1);
    let cfg = &configs[0];
    assert!(cfg.column_map.outcome_date.is_none(), "outcome_date should be None");
    assert!(cfg.column_map.kennel_status.is_none(), "kennel_status should be None");
    assert!(cfg.column_map.found_location.is_none(), "found_location should be None");
    assert!(cfg.column_map.chip_status.is_none(), "chip_status should be None");
    assert!(cfg.column_map.intake_date.is_none(), "intake_date should be None");
    assert!(cfg.column_map.breed.is_none(), "breed should be None");
    assert!(cfg.column_map.name.is_none(), "name should be None");
    assert!(cfg.column_map.color.is_none(), "color should be None");
    assert!(cfg.app_token_env.is_none(), "app_token_env should be None");
}

#[test]
fn empty_required_fields_are_refused() {
    let mut cfg = SocrataConfig::austin();
    assert!(validate_socrata_config(&cfg).is_ok());
    cfg.dataset_id = String::new();
    assert!(matches!(validate_socrata_config(&cfg), Err(ConnectorError::Config(_))));
    assert!(SourceCatalog::from_entries(vec![SocrataConfig::dallas(), cfg]).is_err());
}
