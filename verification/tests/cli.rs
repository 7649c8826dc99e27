//! The command line, the registry and the catalog.

use homeward::catalog;
use homeward::catalog::{OpenDataSoftConfig, SourceCatalog, SourceFamily};
use homeward::cli::{
    built_in_sources, choose_command, choose_sources, init_warning, limit_records,
    parse_coverage_flags, parse_poll_flags, polled_line, CoverageFlags, Invocation, COVERAGE_HELP,
    USAGE,
};
use homeward::connectors::socrata::{SocrataColumnMap, SocrataConfig};
use homeward::error::ConnectorError;
use homeward::registry::ConnectorRegistry;
use homeward::schema::Cursor;
use homeward::time::Timestamp;

fn strings(items: &[&str]) -> Vec<String> {
    items.iter().map(|s| (*s).to_owned()).collect()
}

// Registry.

#[test]
fn ac7_unknown_connector_returns_error() {
    let registry: ConnectorRegistry<u8> = ConnectorRegistry::new();
    let result = registry.get("nonexistent");
    assert!(result.is_err());
    assert!(matches!(result, Err(ConnectorError::UnknownConnector(_))));
}

#[test]
fn ac7_known_connector_is_registered() {
    let mut registry = ConnectorRegistry::new();
    registry.register("austin".to_owned(), SocrataConfig::austin());
    assert!(registry.get("austin").is_ok());
    let names = registry.names();
    assert!(names.contains(&"austin".to_owned()));
}

#[test]
fn later_connectors_take_the_place_of_earlier_ones() {
    let mut registry: ConnectorRegistry<u8> = ConnectorRegistry::default();
    registry.register("a".to_owned(), 1);
    registry.register("b".to_owned(), 2);
    registry.register("a".to_owned(), 3);
    assert_eq!(registry.get("a"), Ok(&3));
    assert_eq!(registry.get("b"), Ok(&2));
    let mut names = registry.names();
    names.sort();
    assert_eq!(names, ["a", "b"]);
}

// Errors.

#[test]
fn errors_in_words() {
    let messages = [
        (ConnectorError::Http("x".to_owned()), "HTTP error: x"),
        (
            ConnectorError::UnexpectedStatus { status: 403, body: "no".to_owned() },
            "unexpected HTTP status 403: no",
        ),
        (ConnectorError::Json("x".to_owned()), "JSON parse error: x"),
        (
            ConnectorError::MissingField { field: "f".to_owned(), context: "c".to_owned() },
            "missing required field: f in record c",
        ),
        (ConnectorError::UnknownSpecies("Emu".to_owned()), "unknown species: \"Emu\""),
        (
            ConnectorError::RateLimitExhausted { host: "h".to_owned() },
            "rate-limited: all retries exhausted for h",
        ),
        (
            ConnectorError::RobotsDisallowed { path: "/p".to_owned(), user_agent: "a".to_owned() },
            "robots.txt disallows path /p for a",
        ),
        (ConnectorError::UnknownConnector("n".to_owned()), "unknown connector: \"n\""),
        (ConnectorError::Url("x".to_owned()), "URL error: x"),
        (ConnectorError::Config("x".to_owned()), "configuration error: x"),
        (
            ConnectorError::FamilyNotBuilt("n".to_owned()),
            "connector family not yet built for source \"n\"",
        ),
    ];
    for (error, message) in messages {
        assert_eq!(error.message(), message);
    }
}

// Catalog.

#[test]
fn test_family_not_built_error() {
    let toml_str = r#"
[[opendatasoft]]
name       = "example-ods"
base_url   = "https://data.example.org"
dataset_id = "animal-shelter-intakes"
[opendatasoft.column_map]
animal_id   = "animal_id"
animal_type = "species"
intake_type = "intake_condition"
"#;
    let table: toml::Table = toml::from_str(toml_str).expect("should parse");
    let entries = table["opendatasoft"].as_array().expect("entries");
    let text = |v: &toml::Value| v.as_str().expect("text").to_owned();
    let catalog = SourceCatalog {
        opendatasoft: entries
            .iter()
            .map(|e| OpenDataSoftConfig {
                name: text(&e["name"]),
                base_url: text(&e["base_url"]),
                dataset_id: text(&e["dataset_id"]),
                column_map: SocrataColumnMap {
                    animal_id: text(&e["column_map"]["animal_id"]),
                    animal_type: text(&e["column_map"]["animal_type"]),
                    intake_type: text(&e["column_map"]["intake_type"]),
                    intake_date: None,
                    found_location: None,
                    chip_status: None,
                    kennel_status: None,
                    breed: None,
                    name: None,
                    color: None,
                    outcome_date: None,
                },
            })
            .collect(),
        ..SourceCatalog::default()
    };
    assert_eq!(catalog.opendatasoft.len(), 1);

    let ods = &catalog.opendatasoft[0];
    let result: Result<(), ConnectorError> =
        Err(ConnectorError::FamilyNotBuilt(ods.name.clone()));
    match result {
        Err(ConnectorError::FamilyNotBuilt(ref name)) => {
            assert_eq!(name, "example-ods");
        }
        _ => panic!("expected FamilyNotBuilt"),
    }
}

#[test]
fn catalogs_that_fail_are_explained() {
    assert_eq!(
        catalog::read_error("/s.toml", "gone").message(),
        "configuration error: cannot read /s.toml: gone"
    );
    assert_eq!(
        catalog::parse_error("/s.toml", "bad").message(),
        "configuration error: TOML parse error in /s.toml: bad"
    );
    assert_eq!(SourceFamily::ArcGis.label(), "ArcGis");
    assert_eq!(SourceFamily::OpenDataSoft.label(), "OpenDataSoft");
}

#[test]
fn sources_come_from_the_catalog_or_are_built_in() {
    let plan = choose_sources("", None);
    let names: Vec<&str> = plan.socrata.iter().map(|c| c.name.as_str()).collect();
    assert_eq!(names, ["austin", "dallas", "sonoma", "long_beach"]);
    assert!(plan.opendatasoft.is_empty());
    assert!(plan.arcgis.is_empty());
    assert_eq!(plan.complaint, None);

    let one = SourceCatalog { socrata: vec![SocrataConfig::sonoma()], ..SourceCatalog::default() };
    let plan = choose_sources("/s.toml", Some(Ok(one)));
    assert_eq!(plan.socrata, [SocrataConfig::sonoma()]);

    let ods = OpenDataSoftConfig {
        name: "ods1".to_owned(),
        base_url: "https://data.example.org".to_owned(),
        dataset_id: "intakes".to_owned(),
        column_map: SocrataConfig::sonoma().column_map,
    };
    let portal = SourceCatalog { opendatasoft: vec![ods.clone()], ..SourceCatalog::default() };
    let plan = choose_sources("/s.toml", Some(Ok(portal)));
    assert_eq!(plan.opendatasoft, [ods]);
    assert!(plan.socrata.is_empty());
    assert_eq!(plan.complaint, None);

    let plan = choose_sources("/s.toml", Some(Err("gone".to_owned())));
    assert!(plan.socrata.is_empty());
    assert!(plan.opendatasoft.is_empty());
    assert_eq!(
        plan.complaint.as_deref(),
        Some("error: HOMEWARD_SOURCES=/s.toml could not be loaded: gone")
    );
    assert_eq!(built_in_sources().len(), 4);
    assert_eq!(
        init_warning("x", " ArcGIS", "bad"),
        "warning: could not init x ArcGIS connector: bad"
    );
}

// Invocations.

#[test]
fn invocations_are_told_apart() {
    let choose = |items: &[&str]| choose_command(&strings(items));
    assert_eq!(choose(&["homeward"]), Invocation::Usage);
    assert_eq!(choose(&["homeward", "connectors", "list"]), Invocation::List);
    assert_eq!(
        choose(&["homeward", "connectors", "poll", "austin", "--limit", "3"]),
        Invocation::Poll {
            name: "austin".to_owned(),
            args: strings(&["poll", "austin", "--limit", "3"])
        }
    );
    assert_eq!(
        choose(&["homeward", "connectors", "poll"]),
        Invocation::Fault(
            "Usage: homeward connectors poll <name> [--since <ts>] [--limit <n>]".to_owned()
        )
    );
    assert_eq!(
        choose(&["homeward", "connectors", "coverage", "--json"]),
        Invocation::Coverage(strings(&["coverage", "--json"]))
    );
    assert_eq!(
        choose(&["homeward", "connectors"]),
        Invocation::Fault("Usage: homeward connectors <poll|list|coverage> ...".to_owned())
    );
    assert_eq!(
        choose(&["homeward", "connectors", "fly"]),
        Invocation::Fault("unknown connectors subcommand: \"fly\"".to_owned())
    );
    assert_eq!(choose(&["homeward", "probe", "d"]), Invocation::Probe(strings(&["d"])));
    assert_eq!(choose(&["homeward", "discover"]), Invocation::Discover(vec![]));
    assert_eq!(
        choose(&["homeward", "fly"]),
        Invocation::Fault("unknown subcommand: \"fly\"".to_owned())
    );
    assert_eq!(USAGE[0], "Usage: homeward <subcommand>");
    assert_eq!(COVERAGE_HELP[2], "USAGE:");
}

#[test]
fn poll_flags_are_read() {
    let parse = |items: &[&str]| parse_poll_flags(&strings(items));
    assert_eq!(parse(&["poll", "austin"]), Ok((None, None)));
    assert_eq!(
        parse(&["poll", "austin", "--since", "2024-01-15T11:00:00+01:00", "--limit", "7"]),
        Ok((
            Some(Cursor::Timestamp(Timestamp::new(1_705_312_800, 0).expect("instant"))),
            Some(7)
        ))
    );
    assert_eq!(parse(&["poll", "a", "--since"]), Err("--since requires a value".to_owned()));
    assert_eq!(parse(&["poll", "a", "--limit"]), Err("--limit requires a value".to_owned()));
    assert_eq!(
        parse(&["poll", "a", "--since", "now"]),
        Err(format!(
            "invalid --since timestamp: {}",
            chrono::DateTime::parse_from_rfc3339("now").unwrap_err()
        ))
    );
    assert_eq!(
        parse(&["poll", "a", "--limit", "-1"]),
        Err(format!("invalid --limit value: {}", "-1".parse::<usize>().unwrap_err()))
    );
    assert_eq!(
        parse(&["poll", "a", "--limit", ""]),
        Err(format!("invalid --limit value: {}", "".parse::<usize>().unwrap_err()))
    );
    assert_eq!(
        parse(&["poll", "a", "--limit", "99999999999999999999999"]),
        Err(format!(
            "invalid --limit value: {}",
            "99999999999999999999999".parse::<usize>().unwrap_err()
        ))
    );
    assert_eq!(parse(&["poll", "a", "x"]), Err("unknown argument: \"x\"".to_owned()));
    assert!(limit_records(vec![], Some(3)).is_empty());
    assert_eq!(polled_line(3, "austin"), "polled 3 records from austin");
}

#[test]
fn coverage_flags_are_read() {
    let parse = |items: &[&str]| parse_coverage_flags(&strings(items));
    assert_eq!(
        parse(&["coverage", "--store", "/s.db", "--json", "--geo"]),
        Ok(Some(CoverageFlags { store: Some("/s.db".to_owned()), json: true, geo: true }))
    );
    assert_eq!(parse(&["coverage", "--json", "-h", "--nope"]), Ok(None));
    assert_eq!(
        parse(&["coverage", "--store"]),
        Err(strings(&["--store requires a path argument"]))
    );
    assert_eq!(
        parse(&["coverage", "--nope"]),
        Err(strings(&[
            "unknown coverage argument: \"--nope\"",
            "Run `homeward connectors coverage --help` for usage."
        ]))
    );
}
