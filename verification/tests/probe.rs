//! Dataset probing.

use homeward::cli::{choose_command, Invocation};
use homeward::connectors::socrata::SocrataConfig;
use homeward::discover::{Candidate, CandidateFamily};
use homeward::error::ConnectorError;
use homeward::probe::{
    columns_url, format_green_toml, json_output, judge_fetch, parse_probe_args, probe_fields,
    probe_url, report_probe, run_probe, sample_url, Confidence, ProbeArgs, ProbeError,
    ProbeResult, Verdict,
};
use homeward::stray::is_stray_value;

fn strings(items: &[&str]) -> Vec<String> {
    items.iter().map(|s| (*s).to_owned()).collect()
}

fn austin_columns_json() -> String {
    r#"[
        {"fieldName": "animal_id", "name": "Animal ID", "dataTypeName": "text"},
        {"fieldName": "name", "name": "Name", "dataTypeName": "text"},
        {"fieldName": "datetime", "name": "DateTime", "dataTypeName": "calendar_date"},
        {"fieldName": "monthyear", "name": "MonthYear", "dataTypeName": "text"},
        {"fieldName": "found_location", "name": "Found Location", "dataTypeName": "text"},
        {"fieldName": "intake_type", "name": "Intake Type", "dataTypeName": "text"},
        {"fieldName": "intake_condition", "name": "Intake Condition", "dataTypeName": "text"},
        {"fieldName": "animal_type", "name": "Animal Type", "dataTypeName": "text"},
        {"fieldName": "sex_upon_intake", "name": "Sex upon Intake", "dataTypeName": "text"},
        {"fieldName": "age_upon_intake", "name": "Age upon Intake", "dataTypeName": "text"},
        {"fieldName": "breed", "name": "Breed", "dataTypeName": "text"},
        {"fieldName": "color", "name": "Color", "dataTypeName": "text"}
    ]"#
    .to_owned()
}

fn austin_sample_json() -> &'static str {
    r#"[{
        "animal_id": "A786884",
        "name": "Buddy",
        "datetime": "2024-01-15T10:00:00.000",
        "monthyear": "January 2024",
        "found_location": "4521 Loyola Ln in Austin (TX)",
        "intake_type": "Stray",
        "intake_condition": "Normal",
        "animal_type": "Dog",
        "sex_upon_intake": "Neutered Male",
        "age_upon_intake": "3 years",
        "breed": "Labrador Retriever Mix",
        "color": "Black/White"
    }]"#
}

fn no_stray_columns_json() -> String {
    r#"[
        {"fieldName": "animal_id", "name": "Animal ID"},
        {"fieldName": "animal_type", "name": "Animal Type"},
        {"fieldName": "intake_type", "name": "Intake Type"}
    ]"#
    .to_owned()
}

fn no_stray_sample_json() -> &'static str {
    r#"[{"animal_id": "X001", "animal_type": "Dog", "intake_type": "Owner Surrender"}]"#
}

fn no_animal_id_columns_json() -> String {
    r#"[
        {"fieldName": "animal_type", "name": "Animal Type"},
        {"fieldName": "intake_type", "name": "Intake Type"},
        {"fieldName": "breed", "name": "Breed"}
    ]"#
    .to_owned()
}

fn no_animal_id_sample_json() -> &'static str {
    r#"[{"animal_type": "Dog", "intake_type": "Stray", "breed": "Lab Mix"}]"#
}

fn austin() -> ProbeResult {
    run_probe(
        Ok(austin_columns_json()),
        austin_sample_json(),
        "data.austintexas.gov",
        "fdzn-9yqv",
        "austin",
    )
    .expect("probe should succeed")
}

fn no_stray() -> ProbeResult {
    run_probe(
        Ok(no_stray_columns_json()),
        no_stray_sample_json(),
        "data.example.gov",
        "xxxx-1234",
        "test",
    )
    .expect("probe should not error")
}

#[test]
fn ac1_austin_fixture_green_required_columns_match() {
    let result = austin();
    assert_eq!(result.verdict, Verdict::Green, "expected GREEN: {}", result.reason);

    let draft = result.column_map.as_ref().expect("should have column map");

    let builtin = SocrataConfig::austin();
    assert_eq!(
        draft.animal_id.as_ref().map(|c| c.source_col.as_str()),
        Some(builtin.column_map.animal_id.as_str()),
        "animal_id mismatch"
    );
    assert_eq!(
        draft.animal_type.as_ref().map(|c| c.source_col.as_str()),
        Some(builtin.column_map.animal_type.as_str()),
        "animal_type mismatch"
    );
    assert_eq!(
        draft.intake_type.as_ref().map(|c| c.source_col.as_str()),
        Some(builtin.column_map.intake_type.as_str()),
        "intake_type mismatch"
    );
}

#[test]
fn ac2_green_output_parses_via_source_catalog() {
    let result = austin();
    assert_eq!(result.verdict, Verdict::Green);

    let toml_text = format_green_toml(&result);
    let clean_toml: String = toml_text
        .lines()
        .map(|line| {
            if let Some(idx) = line.find("  #") {
                let (left, _) = line.split_at(idx);
                left.to_owned()
            } else {
                line.to_owned()
            }
        })
        .collect::<Vec<_>>()
        .join("\n");

    let catalog: toml::Table = toml::from_str(&clean_toml).expect("should parse GREEN output");
    let socrata = catalog["socrata"].as_array().expect("entries");
    assert_eq!(socrata.len(), 1, "should produce exactly one [[socrata]] config");
    assert_eq!(socrata[0]["name"].as_str(), Some("austin"));
    assert_eq!(socrata[0]["domain"].as_str(), Some("data.austintexas.gov"));
    assert_eq!(socrata[0]["dataset_id"].as_str(), Some("fdzn-9yqv"));
    assert!(!socrata[0]["column_map"]["animal_id"].as_str().expect("column").is_empty());
}

#[test]
fn ac3_no_stray_fixture_yields_red() {
    let result = no_stray();
    assert_eq!(result.verdict, Verdict::Red, "expected RED");
    assert!(
        result.reason.contains("STRAY") || result.reason.contains("stray"),
        "reason should mention STRAY signal: {}",
        result.reason
    );
}

#[test]
fn ac3_missing_animal_id_yields_red_distinct_message() {
    let result = run_probe(
        Ok(no_animal_id_columns_json()),
        no_animal_id_sample_json(),
        "data.example.gov",
        "yyyy-5678",
        "test",
    )
    .expect("probe should not error");

    assert_eq!(result.verdict, Verdict::Red, "expected RED for missing animal_id");
    assert!(
        result.reason.contains("animal_id"),
        "reason should mention animal_id: {}",
        result.reason
    );
    assert!(
        !result.reason.contains("adoptable-only"),
        "should not say adoptable-only for missing animal_id: {}",
        result.reason
    );
}

#[test]
fn ac4_intake_type_confirmed_only_when_stray_observed() {
    let result = austin();
    let draft = result.column_map.as_ref().unwrap();
    assert_eq!(
        draft.intake_type.as_ref().map(|c| &c.confidence),
        Some(&Confidence::Confirmed),
        "intake_type should be confirmed when STRAY observed"
    );

    let result2 = no_stray();
    let draft2 = result2.column_map.as_ref().expect("draft");
    let it = draft2.intake_type.as_ref().expect("intake type");
    assert_eq!(
        it.confidence,
        Confidence::Guessed,
        "intake_type should be guessed when no STRAY observed"
    );
}

#[test]
fn ac5_404_yields_typed_error_not_panic() {
    let url = columns_url("data.example.gov", "notexist-0000");
    let reply = judge_fetch(Ok((404, Ok(String::new()))), &url);
    let err = run_probe(reply, "", "data.example.gov", "notexist-0000", "test");
    match err {
        Err(ProbeError::NotFound { url }) => {
            assert!(url.contains("notexist-0000"), "error should include dataset id: {url}");
        }
        other => panic!("unexpected outcome: {other:?}"),
    }
}

#[test]
fn ac5_json_flag_emits_structured_output() {
    let result = austin();
    let output = json_output(&result);
    assert_eq!(output.verdict, "GREEN", "verdict should be GREEN");
    assert!(!output.reason.is_empty(), "json should have reason");
    let draft = output.draft.expect("json should have draft");
    assert_eq!(draft["toml"].as_str(), Some(format_green_toml(&result).as_str()));
    let red = json_output(&no_stray());
    assert_eq!(red.verdict, "RED");
    assert_eq!(red.draft.expect("draft")["intake_type"].as_str(), Some("intake_type"));
}

#[test]
fn is_stray_value_matches_known_values() {
    assert!(is_stray_value("STRAY"));
    assert!(is_stray_value("Stray"));
    assert!(is_stray_value("stray incoming"));
    assert!(is_stray_value("FOUND"));
    assert!(!is_stray_value("Owner Surrender"));
    assert!(!is_stray_value("Transfer"));
}

#[test]
fn no_column_fills_two_slots() {
    let draft = austin().column_map.expect("draft");
    let mut used: Vec<String> = [
        draft.animal_id,
        draft.animal_type,
        draft.intake_type,
        draft.intake_date,
        draft.found_location,
        draft.chip_status,
        draft.kennel_status,
        draft.breed,
        draft.name,
        draft.color,
        draft.outcome_date,
    ]
    .into_iter()
    .flatten()
    .map(|c| c.source_col)
    .collect();
    let all = used.len();
    used.sort();
    used.dedup();
    assert_eq!(used.len(), all);
}

#[test]
fn fetches_are_judged() {
    assert_eq!(judge_fetch(Ok((200, Ok("x".to_owned()))), "u"), Ok("x".to_owned()));
    assert_eq!(
        judge_fetch(Err(ConnectorError::Config("x".to_owned())), "u"),
        Err(ProbeError::Http("configuration error: x".to_owned()))
    );
    assert_eq!(
        judge_fetch(
            Err(ConnectorError::UnexpectedStatus { status: 404, body: String::new() }),
            "u"
        ),
        Err(ProbeError::NotFound { url: "u".to_owned() })
    );
    assert_eq!(
        judge_fetch(Ok((200, Err("cut".to_owned()))), "u"),
        Err(ProbeError::Http("cut".to_owned()))
    );
}

#[test]
fn replies_that_are_no_json_are_errors() {
    let res = run_probe(Ok("<html>".to_owned()), "", "d", "i", "n");
    match &res {
        Err(ProbeError::Json(e)) => {
            assert_eq!(
                *e,
                serde_json::from_str::<serde_json::Value>("<html>").unwrap_err().to_string()
            )
        }
        other => panic!("unexpected outcome: {other:?}"),
    }
    let empty = run_probe(Ok("{}".to_owned()), "", "d", "i", "n").expect("result");
    assert_eq!(empty.verdict, Verdict::Red);
    assert_eq!(empty.column_map, None);
}

#[test]
fn the_probe_command_reports() {
    let args = parse_probe_args(&strings(&["d.gov", "ab-12"])).expect("args");
    assert_eq!(
        args,
        ProbeArgs {
            family: CandidateFamily::Socrata,
            domain: "d.gov".to_owned(),
            dataset_id: "ab-12".to_owned(),
            source_name: "ab_12".to_owned(),
            json: false
        }
    );
    assert_eq!(
        parse_probe_args(&strings(&["d", "i", "--name"])),
        Err("--name requires a value".to_owned())
    );
    assert_eq!(
        parse_probe_args(&strings(&["d", "i", "-x"])),
        Err("unknown argument: \"-x\"".to_owned())
    );
    assert!(parse_probe_args(&strings(&["d"])).is_err());
    assert!(parse_probe_args(&strings(&[])).is_err());

    let green = report_probe(&Ok(austin()), &args);
    assert_eq!(green.code, 0);
    assert!(green.stdout[0].starts_with("# GREEN: dataset fdzn-9yqv"));
    let red = report_probe(&Ok(no_stray()), &args);
    assert_eq!(red.code, 1);
    assert!(red.stderr[0].starts_with("RED: "));
    let missing = report_probe(&Err(ProbeError::NotFound { url: "u".to_owned() }), &args);
    assert_eq!(missing.stderr, ["RED: dataset ab-12 not found: u"]);
    assert_eq!(missing.code, 2);
    let broken = report_probe(&Err(ProbeError::Json("j".to_owned())), &args);
    assert_eq!(broken.code, 2);
    assert!(broken.stdout.is_empty());
    let json = ProbeArgs { json: true, ..args };
    let failed = report_probe(&Err(ProbeError::Http("x".to_owned())), &json);
    assert_eq!(failed.code, 2);
    assert!(failed.json.is_some());
    assert_eq!(sample_url("d", "i"), "https://d/resource/i.json?$limit=1");
}

#[test]
fn a_stray_value_in_another_intake_column_confirms() {
    let sample = r#"[{"animal_id": "X", "animal_type": "Dog", "intake_type": "?", "Intake_Reason": "Stray"}]"#;
    let result = run_probe(Ok(no_stray_columns_json()), sample, "d", "i", "n").expect("probe");
    assert_eq!(result.verdict, Verdict::Green);
    let elsewhere = r#"[{"animal_id": "X", "animal_type": "Dog", "intake_type": "?", "note": "Stray"}]"#;
    let result = run_probe(Ok(no_stray_columns_json()), elsewhere, "d", "i", "n").expect("probe");
    assert_eq!(result.verdict, Verdict::Red);
}

#[test]
fn a_candidates_probe_command_is_accepted() {
    let families = [CandidateFamily::Socrata, CandidateFamily::OpenDataSoft];
    for family in families {
        let command = Candidate::build_probe_cmd(family, "data.example.gov", "abc1-2345");
        let words: Vec<String> = command.split(' ').map(str::to_owned).collect();
        let args = match choose_command(&words) {
            Invocation::Probe(args) => args,
            other => panic!("unexpected invocation: {other:?}"),
        };
        assert_eq!(
            parse_probe_args(&args),
            Ok(ProbeArgs {
                family,
                domain: "data.example.gov".to_owned(),
                dataset_id: "abc1-2345".to_owned(),
                source_name: "abc1_2345".to_owned(),
                json: false
            })
        );
    }
    let behind = parse_probe_args(&strings(&["d", "i", "--json", "--family", "opendatasoft"]));
    assert_eq!(behind.map(|a| (a.family, a.json)), Ok((CandidateFamily::OpenDataSoft, true)));
    assert_eq!(
        parse_probe_args(&strings(&["--family"])),
        Err("--family requires a value".to_owned())
    );
    assert_eq!(
        parse_probe_args(&strings(&["d", "i", "--family"])),
        Err("--family requires a value".to_owned())
    );
    assert_eq!(
        parse_probe_args(&strings(&["--family", "arcgis", "u"])),
        Err("unknown family \"arcgis\"; supported: socrata, opendatasoft".to_owned())
    );
    assert!(parse_probe_args(&strings(&["--family", "socrata", "d"])).is_err());
}

#[test]
fn opendatasoft_datasets_are_probed_by_their_fields() {
    let fields = strings(&["animal_id", "species", "intake_type"]);
    let row = serde_json::from_str(
        r#"{"animal_id": "A1", "species": "Dog", "intake_type": "STRAY"}"#,
    )
    .expect("row");
    let result = probe_fields(&fields, &row, "https://data.example.org", "intakes", "ods1");
    assert_eq!(result.verdict, Verdict::Green, "{}", result.reason);
    let text = format_green_toml(&result);
    let catalog: toml::Table = toml::from_str(&text).expect("should parse");
    let entries = catalog["opendatasoft"].as_array().expect("entries");
    assert_eq!(entries.len(), 1);
    assert_eq!(entries[0]["base_url"].as_str(), Some("https://data.example.org"));
    assert_eq!(entries[0]["column_map"]["animal_type"].as_str(), Some("species"));

    let none = probe_fields(&vec![], &row, "https://data.example.org/", "intakes", "ods1");
    assert_eq!(none.verdict, Verdict::Red);
    assert_eq!(
        none.reason,
        "no fields returned from https://data.example.org/api/explore/v2.1/catalog/datasets/intakes; \
         dataset may not exist or may not be an OpenDataSoft dataset"
    );
}

#[test]
fn printed_entries_read_back() {
    let result = austin();
    let map = result.column_map.as_ref().and_then(|d| d.to_column_map()).expect("map");
    let text = format_green_toml(&result);
    let catalog: toml::Table = toml::from_str(&text).expect("comments are no obstacle");
    assert_eq!(catalog.len(), 1);
    let entries = catalog["socrata"].as_array().expect("entries");
    assert_eq!(entries.len(), 1);
    let column = |key: &str| {
        entries[0]["column_map"].get(key).map(|v| v.as_str().expect("text").to_owned())
    };
    assert_eq!(column("animal_id"), Some(map.animal_id));
    assert_eq!(column("animal_type"), Some(map.animal_type));
    assert_eq!(column("intake_type"), Some(map.intake_type));
    assert_eq!(column("intake_date"), map.intake_date);
    assert_eq!(column("found_location"), map.found_location);
    assert_eq!(column("chip_status"), map.chip_status);
    assert_eq!(column("kennel_status"), map.kennel_status);
    assert_eq!(column("breed"), map.breed);
    assert_eq!(column("name"), map.name);
    assert_eq!(column("color"), map.color);
    assert_eq!(column("outcome_date"), map.outcome_date);
}

#[test]
fn addresses_of_probes_are_parsed() {
    assert_eq!(
        probe_url("HTTPS://Data.Example.gov/api/views/ab-1").expect("url").as_str(),
        "https://data.example.gov/api/views/ab-1"
    );
    assert_eq!(
        probe_url("no scheme"),
        Err(ProbeError::Http("relative URL without a base".to_owned()))
    );
}
