//! The runs of the `discover` command.

use homeward::discover::{Candidate, CandidateFamily, CoverageHole, Degrees, DiscoverArgs};
use homeward::error::ConnectorError;
use homeward::search::{HoleSearch, Search, SearchStep};

fn args(families: &[&str]) -> DiscoverArgs {
    DiscoverArgs {
        families: families.iter().map(|s| (*s).to_owned()).collect(),
        metro: Some("Austin".to_owned()),
        limit: None,
        json_output: false,
        from_holes: None,
        top_n: None,
        format: None,
    }
}

fn candidate(name: &str, score: u32) -> Candidate {
    Candidate {
        family: CandidateFamily::Socrata,
        domain_or_base_url: "d".to_owned(),
        dataset_id: "i".to_owned(),
        name: name.to_owned(),
        score,
        matched_signals: vec![],
        probe_cmd: String::new(),
    }
}

fn hole(label: &str, population: u64) -> CoverageHole {
    let degrees =
        Degrees { negative: false, tenths: "1.0".to_owned(), hundredths: "1.00".to_owned() };
    CoverageHole {
        lat: degrees.clone(),
        lon: degrees,
        estimated_missed_population: population,
        label: Some(label.to_owned()),
    }
}

#[test]
fn every_family_has_its_turn() {
    let mut search = Search::start(&args(&["opendatasoft", "arcgis", "socrata"]));
    assert_eq!(
        search.step(),
        SearchStep::Crawl {
            family: CandidateFamily::OpenDataSoft,
            metro: Some("Austin".to_owned()),
            pages: 3,
            announcement: Some("discover: querying OpenDataSoft catalog…".to_owned()),
        }
    );
    assert_eq!(
        search.absorb(CandidateFamily::OpenDataSoft, Ok(vec![candidate("b", 1)])),
        "discover: 1 ODS candidates (pre-dedup)"
    );
    match search.step() {
        SearchStep::Note(line) => assert!(line.starts_with("discover: WARNING")),
        other => panic!("expected a note, got {other:?}"),
    }
    search.skip();
    assert!(!search.done());
    assert_eq!(
        search.absorb(CandidateFamily::Socrata, Ok(vec![candidate("a", 1), candidate("c", 2)])),
        "discover: 2 Socrata candidates (pre-dedup)"
    );
    assert!(search.done());
    let names: Vec<String> = search.finish(Some(2)).into_iter().map(|c| c.name).collect();
    assert_eq!(names, ["c", "a"]);
}

#[test]
fn a_catalog_that_fails_does_not_end_a_search() {
    let mut search = Search::start(&args(&["socrata", "opendatasoft"]));
    let note = search.absorb(CandidateFamily::Socrata, Err(ConnectorError::Http("x".to_owned())));
    assert_eq!(note, "discover: Socrata catalog error: HTTP error: x");
    search.absorb(CandidateFamily::OpenDataSoft, Ok(vec![candidate("a", 1)]));
    assert_eq!(search.finish(None).len(), 1);
}

#[test]
fn holes_are_searched_one_after_the_other() {
    let holes = vec![hole("Chicago, IL", 200), hole("Los Angeles, CA", 500)];
    let mut search = HoleSearch::start(holes, &args(&["socrata", "ckan", "opendatasoft"]));
    let mut seen = vec![];
    while !search.done() {
        match search.step() {
            SearchStep::Note(line) => {
                assert_eq!(line, "discover --from-holes: unknown family \"ckan\"; skipping");
                seen.push("note".to_owned());
                search.skip();
            }
            SearchStep::Crawl { family, metro, pages, announcement } => {
                assert_eq!(pages, 2);
                assert_eq!(announcement, None);
                let metro = metro.expect("metro");
                seen.push(metro.clone());
                let outcome = match family {
                    CandidateFamily::Socrata => Ok(vec![candidate(&metro, 1)]),
                    CandidateFamily::OpenDataSoft => Err(ConnectorError::Http("x".to_owned())),
                };
                let failed = outcome.is_err();
                assert_eq!(search.absorb(family, outcome).is_some(), failed);
            }
        }
    }
    assert_eq!(
        seen,
        ["Chicago", "note", "Chicago", "Los Angeles", "note", "Los Angeles"]
    );
    let rows = search.finish(None);
    let regions: Vec<&str> = rows.iter().map(|r| r.hole_region.as_str()).collect();
    assert_eq!(regions, ["Los Angeles, CA", "Chicago, IL"]);
    assert_eq!(rows[0].estimated_missed_population, 500);
}

#[test]
fn without_families_nothing_is_searched() {
    assert!(HoleSearch::start(vec![hole("x", 1)], &args(&[])).done());
    assert!(Search::start(&args(&[])).done());
}
