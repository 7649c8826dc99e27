//! The RescueGroups connector.

use homeward::connectors::rescuegroups::{
    build_filters, build_page_url, build_search_url, normalize_page, normalize_rg_record,
    species_from_query, RescueGroupsConfig, RescueGroupsConnector, RgAnimal, RgAttributes,
    RgIncludedItem, RgPage, RgResourceRef, SPECIES,
};
use homeward::error::ConnectorError;
use homeward::schema::{Cursor, IntakeType, PhotoRef, Sex, Species, Stamp, TosClass};
use homeward::time::Timestamp;
use serde_json::Value;

fn json(text: &str) -> Value {
    serde_json::from_str(text).expect("test document")
}

fn at(secs: i64) -> Timestamp {
    Timestamp::new(secs, 0).expect("instant")
}

fn attributes() -> RgAttributes {
    RgAttributes {
        sex: None,
        age_string: None,
        size_group: None,
        name: None,
        breed_string: None,
        primary_breed: None,
        secondary_breed: None,
        description: None,
        updated_date: Some("2024-01-15T10:00:00Z".to_owned()),
        created_date: Some("2024-01-10T08:00:00Z".to_owned()),
        found_location: None,
        chip_status: None,
    }
}

fn make_animal(id: &str, attributes: RgAttributes) -> RgAnimal {
    RgAnimal {
        id: id.to_owned(),
        attributes,
        colors: vec![],
        pictures: vec![],
        locations: vec![],
        orgs: vec![],
    }
}

fn reference(kind: &str, id: &str) -> RgResourceRef {
    RgResourceRef { kind: kind.to_owned(), id: id.to_owned() }
}

fn attached(kind: &str, id: &str, attributes: &str) -> RgIncludedItem {
    RgIncludedItem { kind: kind.to_owned(), id: id.to_owned(), attributes: json(attributes) }
}

fn connector() -> RescueGroupsConnector {
    RescueGroupsConnector::new(RescueGroupsConfig {
        api_key: "test".to_owned(),
        base_url: "http://localhost".to_owned(),
    })
}

#[test]
fn normalizes_dog_record() {
    let animal = make_animal(
        "dog-1",
        RgAttributes {
            primary_breed: Some("Labrador Retriever".to_owned()),
            sex: Some("male".to_owned()),
            age_string: Some("adult".to_owned()),
            size_group: Some("large".to_owned()),
            ..attributes()
        },
    );
    let rec = normalize_rg_record(&animal, Species::Dog, &vec![]).expect("record");
    assert_eq!(rec.species, Species::Dog);
    assert_eq!(rec.intake_type, IntakeType::Adoptable);
    assert_eq!(rec.source.tos_class, TosClass::Api);
    assert!(rec.photos.is_empty());
    assert!(rec.breed_primary.as_deref() == Some("Labrador Retriever"));
    assert_eq!(rec.last_seen, at(1_705_312_800));
    assert_eq!(rec.first_seen, at(1_704_873_600));
}

#[test]
fn normalizes_cat_record() {
    let animal = make_animal(
        "cat-1",
        RgAttributes {
            primary_breed: Some("Domestic Shorthair".to_owned()),
            sex: Some("spayed female".to_owned()),
            age_string: Some("young".to_owned()),
            ..attributes()
        },
    );
    let rec = normalize_rg_record(&animal, Species::Cat, &vec![]).expect("record");
    assert_eq!(rec.species, Species::Cat);
    assert_eq!(rec.sex, Some(Sex::SpayedFemale));
}

#[test]
fn mixed_species_both_normalized() {
    let dog = make_animal("dog-2", attributes());
    let cat = make_animal("cat-2", attributes());
    let dog_rec = normalize_rg_record(&dog, Species::Dog, &vec![]).expect("record");
    let cat_rec = normalize_rg_record(&cat, Species::Cat, &vec![]).expect("record");
    assert_eq!(dog_rec.species, Species::Dog);
    assert_eq!(cat_rec.species, Species::Cat);
}

#[test]
fn species_from_query_maps_dogs_and_cats() {
    assert_eq!(species_from_query("dogs"), Species::Dog);
    assert_eq!(species_from_query("cats"), Species::Cat);
}

#[test]
fn provenance_class_is_api() {
    let prov = connector().provenance();
    assert_eq!(prov.source.tos_class, TosClass::Api);
    assert_eq!(prov.source.name, "rescuegroups");
}

#[test]
fn photos_carry_only_url_not_bytes() {
    let photo = PhotoRef {
        url: "https://example.com/pet.jpg".to_owned(),
        attribution: None,
        is_primary: true,
    };
    assert!(!photo.url.is_empty());
}

#[test]
fn photos_and_colors_are_resolved() {
    let mut animal = make_animal("10131543", attributes());
    animal.pictures = vec![
        reference("pictures", "p1"),
        reference("pictures", "p2"),
        reference("pictures", "gone"),
    ];
    animal.colors = vec![reference("colors", "c1")];
    let included = vec![
        attached(
            "pictures",
            "p1",
            r#"{"large": {"url": "https://cdn.rescuegroups.org/1.jpg"}, "order": 1}"#,
        ),
        attached(
            "pictures",
            "p2",
            r#"{"small": {"url": "https://cdn.rescuegroups.org/2.jpg"}, "order": 2}"#,
        ),
        attached("colors", "c1", r#"{"name": "Black"}"#),
    ];
    let rec = normalize_rg_record(&animal, Species::Dog, &included).expect("record");
    assert_eq!(
        rec.photos,
        vec![
            PhotoRef {
                url: "https://cdn.rescuegroups.org/1.jpg".to_owned(),
                attribution: None,
                is_primary: true,
            },
            PhotoRef {
                url: "https://cdn.rescuegroups.org/2.jpg".to_owned(),
                attribution: None,
                is_primary: false,
            },
        ]
    );
    assert_eq!(rec.colors, vec!["Black".to_owned()]);
    assert_eq!(rec.location, None);
}

#[test]
fn build_search_url_uses_public_prefix() {
    let url = build_search_url("https://api.rescuegroups.org/v5", "dogs", 0);
    assert_eq!(
        url,
        "https://api.rescuegroups.org/v5/public/animals/search/available/dogs?limit=250&offset=0"
    );
}

#[test]
fn build_search_url_never_comma_joins_species() {
    for species in SPECIES {
        let url = build_search_url("https://api.rescuegroups.org/v5", species, 0);
        assert!(!url.contains(','), "url must not comma-join species: {url}");
        assert!(url.contains(&format!("available/{species}?")));
    }
}

#[test]
fn build_search_url_carries_offset_and_page_size() {
    let url = build_search_url("https://api.rescuegroups.org/v5", "cats", 500);
    assert_eq!(
        url,
        "https://api.rescuegroups.org/v5/public/animals/search/available/cats?limit=250&offset=500"
    );
}

#[test]
fn build_filters_full_poll_is_empty() {
    assert_eq!(build_filters(None), Vec::<Value>::new());
}

#[test]
fn build_filters_delta_poll_uses_animals_namespaced_field() {
    let ts = at(1_705_312_800);
    let filters = build_filters(Some(&ts));
    assert_eq!(filters.len(), 1);
    assert_eq!(
        filters[0]["fieldName"], "animals.updatedDate",
        "bare `updatedDate` 400s live — the API namespaces filterable \
         fields under the resource type"
    );
    assert_eq!(filters[0]["operation"], "greaterthanorequal");
    assert_eq!(filters[0]["criteria"], "2024-01-15T10:00:00Z");
}

#[test]
fn build_filters_never_sends_bare_updated_date_field_name() {
    let ts = at(1_800_000_000);
    let filters = build_filters(Some(&ts));
    assert_ne!(
        filters[0]["fieldName"], "updatedDate",
        "bare updatedDate is rejected with HTTP 400 by the real API"
    );
}

#[test]
fn build_filters_criteria_is_rfc3339_not_space_separated() {
    let ts = Timestamp::new(1_755_053_071, 658_043_006).expect("instant");
    let filters = build_filters(Some(&ts));
    let criteria = filters[0]["criteria"].as_str().expect("criteria must be a string");

    assert!(!criteria.contains(' '), "criteria must not be space-separated: {criteria}");
    assert!(criteria.contains('T'), "criteria must use the RFC3339 'T' separator: {criteria}");
    assert!(criteria.ends_with('Z'), "criteria must end with 'Z': {criteria}");
    chrono::DateTime::parse_from_rfc3339(criteria)
        .unwrap_or_else(|e| panic!("criteria must parse as RFC3339: {criteria}: {e}"));
}

#[test]
fn species_list_is_dogs_and_cats_one_at_a_time() {
    assert_eq!(SPECIES, ["dogs", "cats"]);
}

#[test]
fn a_missing_key_is_an_error() {
    assert!(matches!(RescueGroupsConfig::from_env(None), Err(ConnectorError::Config(_))));
    let cfg = RescueGroupsConfig::from_env(Some("key".to_owned())).expect("set");
    assert_eq!(cfg.base_url, "https://api.rescuegroups.org/v5");
}

#[test]
fn species_follow_one_another_and_animals_count_once() {
    let connector = connector();
    let mut poll = connector.start_poll(&Some(Cursor::Opaque("token".to_owned())));
    let request = poll.next_request(&connector.config).expect("request");
    assert!(request.url.as_str().ends_with("/dogs?limit=250&offset=0"));
    assert_eq!(json(&String::from_utf8(request.body).expect("text")), json(
        r#"{"data": {"filters": []}}"#
    ));
    let twice = RgPage {
        data: vec![make_animal("a", attributes()), make_animal("a", attributes())],
        total: 2,
        included: vec![],
    };
    let stamps = vec![Stamp { id: 1, now: at(0) }, Stamp { id: 2, now: at(0) }];
    poll.absorb(&twice, &stamps);
    assert!(!poll.done());
    let request = poll.next_request(&connector.config).expect("request");
    assert!(request.url.as_str().ends_with("/cats?limit=250&offset=0"));
    let again = RgPage { data: vec![make_animal("a", attributes())], total: 1, included: vec![] };
    poll.absorb(&again, &vec![Stamp { id: 3, now: at(0) }]);
    assert!(poll.done());
    let ids: Vec<u128> = poll.records.iter().map(|r| r.canonical_id).collect();
    assert_eq!(ids, vec![1]);
}

#[test]
fn locbackfill_ac1_location_populated_from_locations_relationship() {
    let mut animal = make_animal("rg-loc-dog-1", attributes());
    animal.attributes.primary_breed = Some("Labrador Retriever".to_owned());
    animal.locations = vec![reference("locations", "loc-1")];
    let page = RgPage {
        data: vec![animal],
        total: 1,
        included: vec![attached(
            "locations",
            "loc-1",
            r#"{
                "city": "Austin",
                "state": "TX",
                "postalcode": "78701",
                "lat": 30.2672,
                "lon": -97.7431
            }"#,
        )],
    };
    let result = normalize_page(&page, "dogs", &vec![Stamp { id: 1, now: at(0) }]);
    assert_eq!(result.records.len(), 1);

    let rec = &result.records[0];
    let loc = rec
        .location
        .as_ref()
        .expect("AC1: location must be Some(..), not the old hardcoded None");
    assert_eq!(loc.city_county, "Austin", "AC1: real city must be mapped");
    assert_eq!(loc.state.as_deref(), Some("TX"), "AC1: real state must be mapped");
    assert_eq!(loc.precision, 2);
    assert_eq!(loc.lat, Some(3027), "AC1: lat must be mapped (coarsened to 2dp)");
    assert_eq!(loc.lon, Some(-9774), "AC1: lon must be mapped (coarsened to 2dp)");

    let config = RescueGroupsConfig {
        api_key: "test-key".to_owned(),
        base_url: "http://localhost/v5".to_owned(),
    };
    let request = RescueGroupsConnector::new(config).page_request("dogs", 1).expect("request");
    assert_eq!(request.url.path(), "/v5/public/animals/search/available/dogs");
    assert!(request.url.query_pairs().any(|(k, v)| k == "page" && v == "1"));
    let q = request.url.query().expect("query");
    assert!(
        q.contains("include=") && q.contains("locations") && q.contains("orgs"),
        "request must ask RG to include locations/orgs, got query: {q}"
    );
}

#[test]
fn locbackfill_ac4_fixture_org_location_data_maps_to_some() {
    let mut animal = make_animal(
        "rg-fixture-cat-1",
        RgAttributes {
            updated_date: Some("2024-02-01T00:00:00Z".to_owned()),
            created_date: Some("2024-01-20T00:00:00Z".to_owned()),
            ..attributes()
        },
    );
    animal.orgs = vec![reference("orgs", "org-9")];
    animal.locations = vec![reference("locations", "loc-9")];
    let page = RgPage {
        data: vec![animal],
        total: 1,
        included: vec![
            attached("orgs", "org-9", r#"{ "city": "Dallas", "state": "TX" }"#),
            attached(
                "locations",
                "loc-9",
                r#"{ "city": "Fort Worth", "state": "TX", "lat": 32.7555, "lon": -97.3308 }"#,
            ),
        ],
    };
    let result = normalize_page(&page, "cats", &vec![Stamp { id: 1, now: at(0) }]);
    assert_eq!(result.records.len(), 1, "expected exactly one fixture record");
    assert_eq!(result.records[0].species, Species::Cat);
    assert!(
        result.records[0].location.is_some(),
        "AC4: a fixture payload carrying org/location data must map to Some(..), not None"
    );
    let loc = result.records[0].location.as_ref().expect("location");
    assert_eq!(loc.city_county, "Fort Worth");
    assert_eq!((loc.lat, loc.lon), (Some(3276), Some(-9733)));
}

#[test]
fn organizations_stand_in_for_locations() {
    let mut animal = make_animal("a", attributes());
    animal.orgs = vec![reference("orgs", "org-9")];
    animal.locations = vec![reference("locations", "gone")];
    let included = vec![attached("orgs", "org-9", r#"{ "city": "Dallas", "lat": 33 }"#)];
    let rec = normalize_rg_record(&animal, Species::Dog, &included).expect("record");
    let loc = rec.location.expect("location");
    assert_eq!(loc.city_county, "Dallas");
    assert_eq!(loc.state, None);
    assert_eq!((loc.lat, loc.lon), (Some(3300), None));
}

#[test]
fn page_urls_are_numbered() {
    assert_eq!(
        build_page_url("https://api.rescuegroups.org/v5", "cats", 3),
        "https://api.rescuegroups.org/v5/public/animals/search/available/cats?limit=250&page=3&include=pictures,colors,locations,orgs"
    );
}

#[test]
fn empty_pages_end_a_poll_without_records() {
    let config = RescueGroupsConfig {
        api_key: "key".to_owned(),
        base_url: "https://h/v5".to_owned(),
    };
    let connector = RescueGroupsConnector::new(config);
    let mut poll = connector.start_poll(&None);
    let empty = RgPage { data: vec![], total: 0, included: vec![] };
    poll.absorb(&empty, &vec![]);
    assert!(!poll.done());
    poll.absorb(&empty, &vec![]);
    assert!(poll.done());
    assert!(poll.records.is_empty());
}
