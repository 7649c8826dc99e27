//! The Pet FBI connector.

use homeward::connectors::petfbi::{
    normalize_pfb_report, PetFbiConfig, PetFbiConnector, PfbPage, PfbReport, BASE_URL,
    SOURCE_HELPINGLOSTPETS, SOURCE_PETFBI,
};
use homeward::error::ConnectorError;
use homeward::schema::{
    AgeBucket, Availability, IntakeType, Sex, Size, Species, Stamp, TosClass,
};
use homeward::time::Timestamp;

fn at(secs: i64) -> Timestamp {
    Timestamp::new(secs, 0).expect("instant")
}

fn report(id: &str, kind: &str, source: &str, species: &str) -> PfbReport {
    PfbReport {
        id: id.to_owned(),
        report_type: kind.to_owned(),
        source: source.to_owned(),
        species: species.to_owned(),
        breed: None,
        secondary_breed: None,
        sex: None,
        age: None,
        size: None,
        colors: vec![],
        description: None,
        photo_url: None,
        city: None,
        state: None,
        date_lost: None,
        date_found: None,
        date_created: None,
    }
}

fn make_lost_report(id: &str, source: &str, species: &str) -> PfbReport {
    PfbReport {
        date_created: Some("2024-03-10T15:00:00Z".to_owned()),
        date_lost: Some("2024-03-10T14:00:00Z".to_owned()),
        ..report(id, "lost", source, species)
    }
}

fn make_found_report(id: &str, source: &str, species: &str) -> PfbReport {
    PfbReport {
        date_created: Some("2024-03-12T09:00:00Z".to_owned()),
        date_found: Some("2024-03-12T08:00:00Z".to_owned()),
        ..report(id, "found", source, species)
    }
}

#[test]
fn a_report_is_normalized_in_full() {
    let full = PfbReport {
        breed: Some("Labrador Retriever".to_owned()),
        sex: Some("male".to_owned()),
        age: Some("adult".to_owned()),
        size: Some("large".to_owned()),
        photo_url: Some("https://petfbi.org/photos/pfb-001.jpg".to_owned()),
        city: Some("Austin".to_owned()),
        state: Some("TX".to_owned()),
        ..make_lost_report("pfb-001", "petfbi", "dog")
    };
    let rec = normalize_pfb_report(full).expect("normalize");
    assert_eq!(rec.species, Species::Dog);
    assert_eq!(rec.source_animal_id.as_deref(), Some("pfb-001"));
    assert_eq!(rec.breed_primary.as_deref(), Some("Labrador Retriever"));
    assert_eq!(rec.sex, Some(Sex::Male));
    assert_eq!(rec.age_bucket, Some(AgeBucket::Adult));
    assert_eq!(rec.size, Some(Size::Large));
    assert_eq!(rec.found_location_text.as_deref(), Some("Austin, TX"));
    assert_eq!(rec.first_seen, at(1_710_082_800));
    assert_eq!(rec.photos.len(), 1);
}

#[test]
fn type_lost_normalizes_to_lost_report() {
    let rec = normalize_pfb_report(make_lost_report("l-1", "petfbi", "dog")).expect("normalize");
    assert_eq!(rec.intake_type, IntakeType::LostReport);
    assert_eq!(rec.availability, Availability::Missing);
}

#[test]
fn type_found_normalizes_to_found_report() {
    let rec = normalize_pfb_report(make_found_report("f-1", "petfbi", "cat")).expect("normalize");
    assert_eq!(rec.intake_type, IntakeType::FoundReport);
    assert_eq!(rec.availability, Availability::Available);
}

#[test]
fn petfbi_source_carries_petfbi_source_id() {
    let rec = normalize_pfb_report(make_lost_report("p-1", "petfbi", "dog")).expect("normalize");
    assert_eq!(rec.source.name, SOURCE_PETFBI);
    assert_eq!(rec.source.tos_class, TosClass::NonprofitAttributionRequired);
}

#[test]
fn helpinglostpets_source_carries_helpinglostpets_source_id() {
    let rec = normalize_pfb_report(make_lost_report("h-1", "helpinglostpets", "cat"))
        .expect("normalize");
    assert_eq!(rec.source.name, SOURCE_HELPINGLOSTPETS);
    assert_eq!(rec.source.tos_class, TosClass::NonprofitAttributionRequired);
}

#[test]
fn petfbi_and_help_source_ids_are_distinguishable() {
    let pfb_rec =
        normalize_pfb_report(make_lost_report("p-2", "petfbi", "dog")).expect("normalize pfb");
    let help_rec = normalize_pfb_report(make_lost_report("h-2", "helpinglostpets", "dog"))
        .expect("normalize help");
    assert_ne!(pfb_rec.source.name, help_rec.source.name);
}

#[test]
fn source_id_constants_are_correct() {
    assert_eq!(SOURCE_PETFBI, "petfbi");
    assert_eq!(SOURCE_HELPINGLOSTPETS, "helpinglostpets");
}

#[test]
fn from_env_returns_none_when_var_unset() {
    assert!(PetFbiConfig::from_env(None).is_none());
    let set = PetFbiConfig::from_env(Some("test-uuid-1234".to_owned())).expect("set");
    assert_eq!(set.data_file, "test-uuid-1234");
    assert_eq!(set.base_url, BASE_URL);
}

#[test]
fn from_env_config_fields_are_populated() {
    let cfg = PetFbiConfig {
        data_file: "test-uuid-1234".to_owned(),
        species_filter: None,
        base_url: BASE_URL.to_owned(),
    };
    assert_eq!(cfg.data_file, "test-uuid-1234");
    assert!(cfg.species_filter.is_none());
    assert_eq!(cfg.base_url, BASE_URL);
}

#[test]
fn photos_are_url_references_not_bytes() {
    let with_photo = PfbReport {
        photo_url: Some("https://petfbi.org/photos/test.jpg".to_owned()),
        ..make_lost_report("photo-1", "petfbi", "dog")
    };
    let rec = normalize_pfb_report(with_photo).expect("normalize");
    assert_eq!(rec.photos.len(), 1);
    let photo = &rec.photos[0];
    assert!(photo.url.starts_with("https://"));
    assert!(photo.is_primary);
}

#[test]
fn no_photo_url_yields_empty_photos() {
    let rec =
        normalize_pfb_report(make_lost_report("no-photo", "petfbi", "dog")).expect("normalize");
    assert!(rec.photos.is_empty());
}

#[test]
fn unknown_species_returns_error() {
    let err = normalize_pfb_report(make_lost_report("bird-1", "petfbi", "bird"))
        .expect_err("should fail");
    assert!(matches!(err, ConnectorError::UnknownSpecies(_)));
}

#[test]
fn connector_provenance_is_petfbi() {
    let connector = PetFbiConnector::new(PetFbiConfig {
        data_file: "test-uuid".to_owned(),
        species_filter: None,
        base_url: "http://localhost".to_owned(),
    });
    let prov = connector.provenance();
    assert_eq!(prov.source.name, SOURCE_PETFBI);
    assert_eq!(prov.source.tos_class, TosClass::NonprofitAttributionRequired);
}

#[test]
fn lost_reports_are_polled_before_found_ones() {
    let connector =
        PetFbiConnector::new(PetFbiConfig::from_env(Some("uuid".to_owned())).expect("set"));
    let mut poll = connector.start_poll();
    let lost = poll.next_url(&connector).expect("url");
    assert!(lost.as_str().contains("lost"), "{lost}");
    assert!(lost.as_str().contains("uuid"), "{lost}");
    let page = PfbPage {
        total: 2,
        reports: vec![
            make_lost_report("l-1", "petfbi", "dog"),
            make_lost_report("l-2", "petfbi", "bird"),
        ],
    };
    poll.absorb(&page, &vec![Stamp { id: 1, now: at(0) }, Stamp { id: 2, now: at(0) }]);
    assert!(!poll.done());
    let found = poll.next_url(&connector).expect("url");
    assert!(found.as_str().contains("found"), "{found}");
    poll.absorb(&PfbPage { total: 0, reports: vec![] }, &vec![]);
    assert!(poll.done());
    assert_eq!(poll.records.len(), 1);
}

#[test]
fn empty_tags_are_not_sent() {
    assert_eq!(PetFbiConnector::if_none_match(None), None);
    assert_eq!(PetFbiConnector::if_none_match(Some(String::new())), None);
    assert_eq!(
        PetFbiConnector::if_none_match(Some("\"e\"".to_owned())),
        Some("\"e\"".to_owned())
    );
}

#[test]
fn empty_feeds_end_a_poll_without_records() {
    let config = PetFbiConfig::from_env(Some("uuid".to_owned())).expect("config");
    let mut poll = PetFbiConnector::new(config).start_poll();
    let empty = PfbPage { total: 0, reports: vec![] };
    poll.absorb(&empty, &vec![]);
    assert!(!poll.done());
    poll.absorb(&empty, &vec![]);
    assert!(poll.done());
    assert!(poll.records.is_empty());
}
