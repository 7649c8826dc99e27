//! Catalog discovery.

use homeward::discover::{
    build_ods_catalog_url, build_socrata_catalog_url, can_truncate, cap, choose_family,
    holes_parse_error, holes_read_error, note_crawled, note_holes, note_region_error,
    print_candidates, print_hole_rows, rank_candidates, rank_hole_rows, report_candidates,
    report_hole_rows, score_candidate, skipped_family_note, truncate, Candidate, CandidateFamily,
    CatalogEntry, CoverageHole, Crawl, Degrees, DiscoverArgs, DiscoverUsage, FamilyChoice,
    HoleCandidateRow, OdsDataset, SocrataResource, NO_CANDIDATES, NO_HOLE_ROWS, SEARCH_TERMS,
};
use homeward::error::ConnectorError;
use homeward::text::lower;
use serde_json::Value;

fn strings(items: &[&str]) -> Vec<String> {
    items.iter().map(|s| (*s).to_owned()).collect()
}

fn socrata_fixture_json() -> &'static str {
    r#"{
  "results": [
    {
      "resource": {
        "id": "abc1-2345",
        "name": "Animal Intake and Outcome",
        "description": "Austin animal shelter intake records including stray animals",
        "domain": "data.austintexas.gov",
        "columns_name": ["animal_id", "intake_type", "animal_type", "intake_date", "found_location"]
      }
    },
    {
      "resource": {
        "id": "def3-6789",
        "name": "Stray Animal Services",
        "description": "Dallas animal stray intake data",
        "domain": "data.dallascityhall.com",
        "columns_name": ["intake_type", "species", "date_intake"]
      }
    },
    {
      "resource": {
        "id": "ghi7-0123",
        "name": "Animal Shelter Adoptions",
        "description": "Adoptable pets at the shelter",
        "domain": "data.example.gov",
        "columns_name": ["animal_name", "breed", "status"]
      }
    },
    {
      "resource": {
        "id": "jkl4-5678",
        "name": "Parking Citations 2023",
        "description": "Downtown parking violations and citations",
        "domain": "data.cityparking.gov",
        "columns_name": ["citation_id", "location", "amount", "date"]
      }
    },
    {
      "resource": {
        "id": "mno9-1234",
        "name": "Animal Control Calls",
        "description": "Service calls for animal control including stray pickup",
        "domain": "data.city.example.gov",
        "columns_name": ["animal_type", "call_date", "call_type", "disposition"]
      }
    }
  ],
  "resultSetSize": 5
}"#
}

fn ods_fixture_json() -> &'static str {
    r#"{
  "total_count": 3,
  "results": [
    {
      "dataset_id": "animal-shelter-intakes-001",
      "metas": {
        "default": {
          "title": "Animal Shelter Intake Records",
          "description": "Monthly animal intake records including stray and found animals",
          "domain": "data.opendata.example.org"
        }
      },
      "fields": [
        {"name": "animal_type"},
        {"name": "intake_type"},
        {"name": "intake_date"},
        {"name": "animal_id"}
      ]
    },
    {
      "dataset_id": "budget-expenditures-2023",
      "metas": {
        "default": {
          "title": "City Budget Expenditures 2023",
          "description": "Annual budget expenditure data by department",
          "domain": "data.opendata.example.org"
        }
      },
      "fields": [
        {"name": "department"},
        {"name": "amount"},
        {"name": "fiscal_year"}
      ]
    },
    {
      "dataset_id": "stray-animal-report-2024",
      "metas": {
        "default": {
          "title": "Stray Animal Reports",
          "description": "Reported stray animal incidents",
          "domain": "data.opendata2.example.org"
        }
      },
      "fields": [
        {"name": "species"},
        {"name": "report_date"},
        {"name": "location"}
      ]
    }
  ]
}"#
}

fn text_of(v: &Value) -> String {
    v.as_str().unwrap_or("").to_owned()
}

fn socrata_entries() -> Vec<CatalogEntry> {
    let fixture: Value = serde_json::from_str(socrata_fixture_json()).expect("parse fixture");
    fixture["results"]
        .as_array()
        .expect("results array")
        .iter()
        .map(|r| {
            let resource = &r["resource"];
            CatalogEntry::from_socrata(SocrataResource {
                id: text_of(&resource["id"]),
                name: text_of(&resource["name"]),
                description: text_of(&resource["description"]),
                domain: text_of(&resource["domain"]),
                columns_name: resource["columns_name"]
                    .as_array()
                    .expect("columns")
                    .iter()
                    .map(text_of)
                    .collect(),
            })
        })
        .collect()
}

fn ods_entries() -> Vec<CatalogEntry> {
    let fixture: Value = serde_json::from_str(ods_fixture_json()).expect("parse fixture");
    fixture["results"]
        .as_array()
        .expect("results array")
        .iter()
        .map(|r| {
            let meta = &r["metas"]["default"];
            CatalogEntry::from_opendatasoft(OdsDataset {
                dataset_id: text_of(&r["dataset_id"]),
                title: text_of(&meta["title"]),
                description: meta["description"].as_str().map(|s| s.to_owned()),
                domain: meta["domain"].as_str().map(|s| s.to_owned()),
                fields: r["fields"]
                    .as_array()
                    .expect("fields")
                    .iter()
                    .map(|f| text_of(&f["name"]))
                    .collect(),
            })
        })
        .collect()
}

fn candidate(name: &str, score: u32) -> Candidate {
    Candidate {
        family: CandidateFamily::Socrata,
        domain_or_base_url: "data.example.gov".to_owned(),
        dataset_id: format!("ds-{name}"),
        name: name.to_owned(),
        score,
        matched_signals: vec!["name:animal-intake".to_owned()],
        probe_cmd: format!("homeward probe --family socrata data.example.gov ds-{name}"),
    }
}

fn degrees(x: f64) -> Degrees {
    Degrees {
        negative: !(x >= 0.0),
        tenths: format!("{:.1}", x.abs()),
        hundredths: format!("{:.2}", x.abs()),
    }
}

fn hole(lat: f64, lon: f64, population: u64, label: Option<&str>) -> CoverageHole {
    CoverageHole {
        lat: degrees(lat),
        lon: degrees(lon),
        estimated_missed_population: population,
        label: label.map(|s| s.to_owned()),
    }
}

// Scoring.

#[test]
fn test_scoring_animal_intake_outranks_parking() {
    let (animal_score, _) = score_candidate(
        "Animal Intake and Outcome",
        "Austin animal shelter intake records including stray animals",
        &["animal_id".to_owned(), "intake_type".to_owned(), "animal_type".to_owned()],
    );
    let (parking_score, _) = score_candidate(
        "Parking Citations 2023",
        "Downtown parking violations and citations",
        &["citation_id".to_owned(), "location".to_owned(), "amount".to_owned()],
    );

    assert!(animal_score > 0, "animal intake dataset should score > 0");
    assert_eq!(parking_score, 0, "parking dataset should score 0");
    assert!(
        animal_score > parking_score,
        "animal ({animal_score}) should outrank parking ({parking_score})"
    );
}

#[test]
fn test_parking_dataset_dropped_from_fixture() {
    let fixture: Value = serde_json::from_str(socrata_fixture_json()).expect("parse fixture");
    let results = fixture["results"].as_array().expect("results array");

    let mut candidates: Vec<(String, u32)> = Vec::new();
    for r in results {
        let resource = &r["resource"];
        let name = resource["name"].as_str().unwrap_or("");
        let desc = resource["description"].as_str().unwrap_or("");
        let cols: Vec<String> = resource["columns_name"]
            .as_array()
            .map(|a| a.iter().filter_map(|v| v.as_str().map(|s| s.to_owned())).collect())
            .unwrap_or_default();
        let (score, _) = score_candidate(name, desc, &cols);
        candidates.push((name.to_owned(), score));
    }

    let parking = candidates.iter().find(|(n, _)| n.contains("Parking"));
    assert!(parking.is_some(), "parking dataset must be in fixture");
    assert_eq!(parking.unwrap().1, 0, "parking dataset must score 0 (dropped)");

    let best_animal = candidates.iter().max_by_key(|(_, s)| *s);
    assert!(
        best_animal.is_some_and(|(_, s)| *s > 0),
        "best animal dataset must score > 0"
    );
}

#[test]
fn test_candidate_has_all_required_fields() {
    let (score, signals) = score_candidate(
        "Animal Intake",
        "Stray and found animals",
        &["intake_type".to_owned(), "animal_type".to_owned()],
    );
    let probe_cmd = Candidate::build_probe_cmd(
        CandidateFamily::Socrata,
        "data.example.gov",
        "abc1-2345",
    );
    let candidate = Candidate {
        family: CandidateFamily::Socrata,
        domain_or_base_url: "data.example.gov".to_owned(),
        dataset_id: "abc1-2345".to_owned(),
        name: "Animal Intake".to_owned(),
        score,
        matched_signals: signals,
        probe_cmd,
    };

    assert_eq!(candidate.family, CandidateFamily::Socrata);
    assert!(!candidate.domain_or_base_url.is_empty());
    assert!(!candidate.dataset_id.is_empty());
    assert!(!candidate.probe_cmd.is_empty());
    assert!(candidate.score > 0);
    assert!(!candidate.matched_signals.is_empty());
    assert!(
        candidate.probe_cmd.contains("data.example.gov"),
        "probe_cmd must include domain"
    );
    assert!(
        candidate.probe_cmd.contains("abc1-2345"),
        "probe_cmd must include dataset_id"
    );
}

#[test]
fn test_limit_caps_candidates() {
    let candidates: Vec<Candidate> = (0..10)
        .map(|i| Candidate {
            family: CandidateFamily::Socrata,
            domain_or_base_url: format!("data.example{i}.gov"),
            dataset_id: format!("ds-{i:04}"),
            name: format!("Animal Intake {i}"),
            score: 5,
            matched_signals: vec!["name:animal".to_owned()],
            probe_cmd: format!("homeward probe --family socrata data.example{i}.gov ds-{i:04}"),
        })
        .collect();

    let candidates = cap(candidates, Some(3));
    assert_eq!(candidates.len(), 3);
    assert_eq!(candidates[2].dataset_id, "ds-0002");
}

#[test]
fn test_score_signals_intake_type_col() {
    let (score, signals) = score_candidate("Animal Shelter", "", &["intake_type".to_owned()]);
    assert!(signals.contains(&"col:intake-type".to_owned()), "should detect intake_type col");
    assert!(score >= 2, "intake_type column adds at least 2 to score");
}

#[test]
fn test_score_signals_animal_type_col() {
    let (score, signals) = score_candidate("Animal Shelter", "", &["animal_type".to_owned()]);
    assert!(signals.contains(&"col:animal-type".to_owned()), "should detect animal_type col");
    assert!(score >= 1, "animal_type column adds at least 1 to score");
}

#[test]
fn test_score_zero_for_unrelated_dataset() {
    let (score, _) = score_candidate(
        "Road Construction Permits",
        "Monthly permit issuance for road construction projects",
        &["permit_id".to_owned(), "location".to_owned(), "cost".to_owned()],
    );
    assert_eq!(score, 0, "unrelated dataset must score 0");
}

// Crawling.

#[test]
fn test_ods_fixture_parsed_and_scored() {
    let mut crawl = Crawl::start(CandidateFamily::OpenDataSoft, 1);
    crawl.absorb(&ods_entries(), Some(3));
    let ods_candidates = crawl.candidates;

    for c in &ods_candidates {
        assert_eq!(c.family, CandidateFamily::OpenDataSoft);
    }

    let budget = ods_candidates.iter().find(|c| c.name.contains("Budget"));
    assert!(budget.is_none(), "budget dataset should be dropped (score 0)");

    assert!(
        !ods_candidates.is_empty(),
        "ODS fixture should yield at least one animal-intake candidate"
    );

    let probe_cmd = Candidate::build_probe_cmd(
        CandidateFamily::OpenDataSoft,
        &ods_candidates[0].domain_or_base_url,
        &ods_candidates[0].dataset_id,
    );
    assert!(
        probe_cmd.contains("opendatasoft"),
        "ODS probe_cmd must mention family: {probe_cmd}"
    );
    assert_eq!(ods_candidates[0].domain_or_base_url, "https://data.opendata.example.org");
    assert_eq!(
        ods_candidates[0].probe_cmd,
        "homeward probe --family opendatasoft https://data.opendata.example.org animal-shelter-intakes-001"
    );
}

#[test]
fn a_crawl_takes_each_dataset_once() {
    let mut crawl = Crawl::start(CandidateFamily::Socrata, 2);
    assert_eq!(
        crawl.next_url(None),
        "https://api.us.socrata.com/api/catalog/v1?q=animal+intake&only=dataset&limit=100&offset=0"
    );
    let mut pages = 0;
    while !crawl.done() {
        crawl.absorb(&socrata_entries(), Some(5));
        pages += 1;
    }
    assert_eq!(pages, SEARCH_TERMS.len());
    let ids: Vec<&str> = crawl.candidates.iter().map(|c| c.dataset_id.as_str()).collect();
    assert_eq!(ids, ["abc1-2345", "def3-6789", "ghi7-0123", "mno9-1234"]);
    assert!(crawl.candidates.iter().all(|c| c.score > 0));
    assert_eq!(crawl.seen.len(), 5);
}

#[test]
fn full_pages_are_followed() {
    let page: Vec<CatalogEntry> = (0..100)
        .map(|i| CatalogEntry {
            base: "d".to_owned(),
            dataset_id: format!("id-{i}"),
            name: "Parking".to_owned(),
            description: String::new(),
            columns: vec![],
        })
        .collect();
    let mut crawl = Crawl::start(CandidateFamily::Socrata, 2);
    crawl.absorb(&page, Some(250));
    assert!(crawl.next_url(None).ends_with("offset=100"));
    crawl.absorb(&page, Some(250));
    assert_eq!((crawl.term, crawl.page, crawl.offset), (1, 0, 0));
    assert!(Crawl::start(CandidateFamily::Socrata, 0).done());
}

#[test]
fn catalog_addresses() {
    assert_eq!(
        build_socrata_catalog_url("animal shelter", 200, Some("Los Angeles")),
        "https://api.us.socrata.com/api/catalog/v1?q=animal+shelter&only=dataset&limit=100&offset=200&search_context=Los+Angeles"
    );
    assert_eq!(
        build_ods_catalog_url("stray animal", 0, Some("Los Angeles")),
        "https://data.opendatasoft.com/api/explore/v2.1/catalog/datasets?q=stray%20animal&limit=100&offset=0&where=metas.default.keyword+like+%22Los%20Angeles%22"
    );
}

#[test]
fn portals_are_named_in_full() {
    let entry = |domain: Option<&str>| {
        CatalogEntry::from_opendatasoft(OdsDataset {
            dataset_id: "d".to_owned(),
            title: "t".to_owned(),
            description: None,
            domain: domain.map(|s| s.to_owned()),
            fields: vec![],
        })
        .base
    };
    assert_eq!(entry(None), "https://data.opendatasoft.com");
    assert_eq!(entry(Some("")), "https://data.opendatasoft.com");
    assert_eq!(entry(Some("http://x")), "http://x");
    assert_eq!(entry(Some("x.org")), "https://x.org");
}

// Arguments.

#[test]
fn test_arcgis_families_filter() {
    let args: Vec<String> = vec!["--families".to_owned(), "arcgis".to_owned()];
    let parsed = DiscoverArgs::parse(&args).expect("should parse without error");
    assert!(parsed.families.contains(&"arcgis".to_owned()));
}

#[test]
fn test_families_default_when_empty_args() {
    let args: Vec<String> = vec![];
    let parsed = DiscoverArgs::parse(&args).expect("should parse empty args");
    assert!(parsed.families.contains(&"socrata".to_owned()));
    assert!(parsed.families.contains(&"opendatasoft".to_owned()));
}

#[test]
fn test_parse_from_holes_args() {
    let args: Vec<String> = vec![
        "--from-holes".to_owned(),
        "/tmp/holes.json".to_owned(),
        "--top".to_owned(),
        "20".to_owned(),
        "--format".to_owned(),
        "json".to_owned(),
        "--families".to_owned(),
        "socrata".to_owned(),
    ];
    let parsed = DiscoverArgs::parse(&args).expect("should parse");
    assert_eq!(parsed.from_holes.as_deref(), Some("/tmp/holes.json"));
    assert_eq!(parsed.top_n, Some(20));
    assert_eq!(parsed.format.as_deref(), Some("json"));
    assert_eq!(parsed.families, vec!["socrata"]);
}

#[test]
fn test_parse_from_holes_missing_path_errors() {
    let args: Vec<String> = vec!["--from-holes".to_owned()];
    let result = DiscoverArgs::parse(&args);
    assert!(result.is_err(), "--from-holes without path should error");
}

#[test]
fn test_parse_format_invalid_errors() {
    let args: Vec<String> = vec![
        "--from-holes".to_owned(),
        "/tmp/x.json".to_owned(),
        "--format".to_owned(),
        "yaml".to_owned(),
    ];
    let result = DiscoverArgs::parse(&args);
    assert!(result.is_err(), "invalid --format value should error");
}

#[test]
fn test_from_holes_default_families() {
    let args: Vec<String> = vec!["--from-holes".to_owned(), "/tmp/holes.json".to_owned()];
    let parsed = DiscoverArgs::parse(&args).expect("should parse");
    assert!(parsed.families.contains(&"socrata".to_owned()));
    assert!(parsed.families.contains(&"opendatasoft".to_owned()));
}

#[test]
fn help_and_faults_are_told_apart() {
    let help = DiscoverArgs::parse(&strings(&["--help"])).expect_err("help");
    assert_eq!(help, DiscoverUsage::Help);
    assert_eq!(help.exit_code(), 0);
    let fault = DiscoverArgs::parse(&strings(&["--limit", "many"])).expect_err("fault");
    assert_eq!(fault.exit_code(), 1);
    assert!(matches!(fault, DiscoverUsage::Fault(_)));
    let parsed = DiscoverArgs::parse(&strings(&["--metro", "Austin", "--limit", "3", "--json"]))
        .expect("parse");
    assert_eq!(parsed.metro.as_deref(), Some("Austin"));
    assert_eq!(parsed.limit, Some(3));
    assert!(parsed.holes_as_json());
}

// Coverage holes.

#[test]
fn test_query_terms_from_label_splits_on_comma() {
    let hole = hole(34.05, -118.24, 500_000, Some("Los Angeles, CA"));
    let terms = hole.query_terms();
    assert_eq!(terms.len(), 1, "one term from label");
    assert_eq!(
        terms[0], "Los Angeles",
        "primary term should be the part before the comma"
    );
}

#[test]
fn test_query_terms_no_label_uses_synthetic() {
    let hole = hole(29.76328, -95.36327, 100_000, None);
    let terms = hole.query_terms();
    assert_eq!(terms.len(), 1, "one synthetic term from lat/lon");
    assert!(
        terms[0].contains('N') || terms[0].contains('S'),
        "synthetic term should have N/S direction: {:?}",
        terms[0]
    );
    assert_eq!(terms[0], "29.8N 95.4W");
}

#[test]
fn test_query_terms_label_no_comma() {
    let hole = hole(29.76, -95.36, 100_000, Some("Houston"));
    let terms = hole.query_terms();
    assert_eq!(terms.len(), 1);
    assert_eq!(terms[0], "Houston", "label without comma used as-is");
}

#[test]
fn test_region_name_from_label() {
    let hole = hole(34.05, -118.24, 0, Some("Los Angeles, CA"));
    assert_eq!(hole.region_name(), "Los Angeles, CA");
}

#[test]
fn test_region_name_synthetic() {
    let hole = hole(29.76, -95.36, 0, None);
    let name = hole.region_name();
    assert!(!name.is_empty(), "synthetic region_name must not be empty");
    assert_eq!(name, "29.76N,95.36W");
}

#[test]
fn test_hole_candidate_rows_sorted_by_population_descending() {
    let rows = vec![
        HoleCandidateRow {
            hole_region: "Chicago, IL".to_owned(),
            estimated_missed_population: 200_000,
            candidate: candidate("Chicago Animal Intake", 5),
        },
        HoleCandidateRow {
            hole_region: "Los Angeles, CA".to_owned(),
            estimated_missed_population: 500_000,
            candidate: candidate("LA Animal Shelter", 7),
        },
    ];

    let rows = rank_hole_rows(rows, None);

    assert_eq!(
        rows[0].hole_region, "Los Angeles, CA",
        "higher population hole should rank first"
    );
    assert_eq!(
        rows[1].hole_region, "Chicago, IL",
        "lower population hole should rank second"
    );
}

#[test]
fn test_hole_candidate_rows_tie_broken_by_score() {
    let make_row = |region: &str, pop: u64, score: u32| HoleCandidateRow {
        hole_region: region.to_owned(),
        estimated_missed_population: pop,
        candidate: Candidate {
            family: CandidateFamily::Socrata,
            domain_or_base_url: "data.example.gov".to_owned(),
            dataset_id: format!("ds-{region}"),
            name: format!("{region} Animal Shelter"),
            score,
            matched_signals: vec![],
            probe_cmd: String::new(),
        },
    };

    let rows = vec![make_row("Region A", 100_000, 3), make_row("Region B", 100_000, 7)];

    let rows = rank_hole_rows(rows, None);

    assert_eq!(
        rows[0].candidate.score, 7,
        "higher score should rank first when population is tied"
    );
    assert_eq!(rows[1].candidate.score, 3);
}

#[test]
fn rows_pair_a_hole_with_its_candidates() {
    let hole = hole(-33.87, 151.21, 9, None);
    let rows = hole.rows(vec![candidate("A", 1), candidate("B", 2)]);
    assert_eq!(rows.len(), 2);
    assert!(rows.iter().all(|r| r.hole_region == "33.87S,151.21E"));
    assert!(rows.iter().all(|r| r.estimated_missed_population == 9));
    assert_eq!(rows[1].candidate, candidate("B", 2));
}

#[test]
fn candidates_are_ranked_by_score_and_name() {
    let ranked = rank_candidates(
        vec![candidate("b", 3), candidate("c", 5), candidate("a", 3)],
        Some(2),
    );
    let names: Vec<&str> = ranked.iter().map(|c| c.name.as_str()).collect();
    assert_eq!(names, ["c", "a"]);
}

#[test]
fn hole_lists_that_fail_are_explained() {
    assert_eq!(
        holes_read_error("/h.json", "gone").message(),
        "configuration error: cannot read holes file /h.json: gone"
    );
    assert_eq!(
        holes_parse_error(Some("/h.json"), "bad").message(),
        "configuration error: cannot parse holes JSON from /h.json: bad"
    );
    assert_eq!(
        holes_parse_error(None, "bad").message(),
        "configuration error: cannot parse holes JSON: bad"
    );
}

// Output.

#[test]
fn candidates_are_printed_as_a_table() {
    let lines = print_candidates(&vec![candidate("Animal Intake", 7)]);
    assert_eq!(
        lines[2],
        format!(
            "{:<4}  {:<14}  {:<35}  {:<22}  {:<6}  {}",
            "rank", "family", "domain/base_url", "dataset_id", "score", "signals"
        )
    );
    assert_eq!(
        lines[4],
        format!(
            "{:<4}  {:<14}  {:<35}  {:<22}  {:<6}  {}",
            1, "socrata", "data.example.gov", "ds-Animal Intake", 7, "name:animal-intake"
        )
    );
    assert_eq!(
        lines[5],
        "       probe: homeward probe --family socrata data.example.gov ds-Animal Intake"
    );
}

#[test]
fn hole_rows_are_printed_as_a_table() {
    let rows = hole(34.05, -118.24, 500_000, Some("Los Angeles, CA")).rows(vec![candidate("x", 7)]);
    let lines = print_hole_rows(&rows);
    assert_eq!(
        lines[5],
        format!(
            "{:<4}  {:<28}  {:<12}  {:<14}  {:<35}  {:<6}",
            1, "Los Angeles, CA", 500_000, "socrata", "data.example.gov", 7
        )
    );
    let report = report_hole_rows(&rows, false);
    assert_eq!(report.stdout, lines);
    assert_eq!(report_hole_rows(&vec![], false).stderr, [NO_HOLE_ROWS]);
}

#[test]
fn reports_say_what_is_printed() {
    let none = report_candidates(&vec![], true);
    assert_eq!((none.code, none.as_json), (0, false));
    assert_eq!(none.stderr, [NO_CANDIDATES]);
    let json = report_candidates(&vec![candidate("x", 1)], true);
    assert!(json.as_json);
    assert!(json.stdout.is_empty());
    let table = report_candidates(&vec![candidate("x", 1)], false);
    assert_eq!(table.stdout.len(), 6);
}

#[test]
fn notes_for_the_user() {
    assert_eq!(choose_family("arcgis"), FamilyChoice::ArcGis);
    assert_eq!(choose_family("ckan"), FamilyChoice::Unknown);
    assert_eq!(skipped_family_note("socrata", true), None);
    assert_eq!(
        skipped_family_note("ckan", false).as_deref(),
        Some("discover: unknown family \"ckan\"; supported: socrata, opendatasoft")
    );
    assert_eq!(
        skipped_family_note("ckan", true).as_deref(),
        Some("discover --from-holes: unknown family \"ckan\"; skipping")
    );
    assert_eq!(
        note_crawled(CandidateFamily::OpenDataSoft, &Ok(12)),
        "discover: 12 ODS candidates (pre-dedup)"
    );
    assert_eq!(
        note_crawled(
            CandidateFamily::OpenDataSoft,
            &Err(ConnectorError::Config("x".to_owned()))
        ),
        "discover: OpenDataSoft catalog error: configuration error: x"
    );
    assert_eq!(
        note_region_error(
            CandidateFamily::Socrata,
            "L\"A",
            &ConnectorError::Http("x".to_owned())
        ),
        "discover --from-holes: Socrata error for region \"L\\\"A\": HTTP error: x"
    );
    assert_eq!(
        note_holes(2, &strings(&["socrata", "opendatasoft"])),
        "discover --from-holes: 2 hole(s), querying socrata, opendatasoft family/families…"
    );
}

#[test]
fn texts_are_cut_between_characters() {
    assert_eq!(truncate("short", 10), "short");
    assert_eq!(truncate("data.example.gov", 4), "data");
    assert!(can_truncate("éé", 2));
    assert!(!can_truncate("éé", 3));
    assert!(can_truncate("éé", 4));
}

#[test]
fn scores_ignore_case_and_order_and_grow_with_columns() {
    let columns = |items: &[&str]| -> Vec<String> {
        items.iter().map(|s| (*s).to_owned()).collect()
    };
    let few = score_candidate("Animal Shelter", "Strays", &columns(&["Intake_Type"]));
    let more = score_candidate("Animal Shelter", "Strays", &columns(&["x", "SPECIES", "intake_type"]));
    assert_eq!(few.0, 5);
    assert_eq!(more.0, 6);
    let other = score_candidate(
        "ANIMAL shelter",
        "sTRAYS",
        &columns(&["species", "INTAKE_TYPE", "X", "intake_type"]),
    );
    assert_eq!(other, more);

    let mixed = |name: &str, column: &str| score_candidate(name, "", &columns(&[column]));
    let low = mixed("refúgio — animal shelter ΟΔΥΣΣΕΥΣ", "espèce_species");
    assert_eq!(low.0, 3);
    assert_eq!(mixed("REFúGIO — Animal SHELTER ΟΔΥΣΣΕΥΣ", "ESPèCE_Species"), low);
}

#[test]
fn lower_case_ignores_the_case_of_ascii_letters_beside_others() {
    for text in ["ÉCOLE Animal", "aΣ", "AΣ", "AΣb", "aΣB", "İstanbul SHELTER", "K9 Ünit"] {
        assert_eq!(lower(text), lower(&text.to_ascii_lowercase()));
        assert_eq!(lower(text), text.to_lowercase());
    }
}
