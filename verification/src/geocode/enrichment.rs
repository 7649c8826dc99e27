//! Fills a record's location from the text of where the animal was found.
//!
//! A location that a shelter reported is never overwritten, and one that was
//! filled in is marked [`LocationSource::FoundText`].

use vstd::prelude::*;

use crate::geocode::gazetteer::{EntryView, Gazetteer, LocationSource};
use crate::geocode::parser;
use crate::geocode::parser::{ParsedLocation, ParsedView};
use crate::schema::{PetRecord, PetRecordView};

verus! {

/// Outcome of [`enrich_record`].
#[derive(Debug, Clone, Copy, PartialEq, Eq, Structural)]
pub enum EnrichmentResult {
    /// The location was missing and has been filled in.
    Filled,
    /// The location was already set; the record is unchanged.
    AlreadySet,
    /// There was no text, or it could not be resolved; the record is unchanged.
    NotResolved,
}

/// A record after its location has been filled in, as far as it can be.
pub open spec fn enriched(rec: PetRecordView, entries: Seq<EntryView>) -> PetRecordView {
    if rec.location is Some || rec.found_location_text is None {
        rec
    } else {
        match parser::parsed_location(rec.found_location_text->0, entries) {
            ParsedView::Resolved(loc) => PetRecordView { location: Some(loc), ..rec },
            _ => rec,
        }
    }
}

/// What filling a record's location in comes to.
pub open spec fn enrichment(rec: PetRecordView, entries: Seq<EntryView>) -> EnrichmentResult {
    if rec.location is Some {
        EnrichmentResult::AlreadySet
    } else if rec.found_location_text is Some && parser::parsed_location(
        rec.found_location_text->0,
        entries,
    ) is Resolved {
        EnrichmentResult::Filled
    } else {
        EnrichmentResult::NotResolved
    }
}

/// Fills `record.location` from the text of where the animal was found, when it
/// is missing.
pub fn enrich_record(record: &mut PetRecord, gazetteer: &Gazetteer) -> (res: (
    EnrichmentResult,
    Option<LocationSource>,
))
    ensures
        final(record).deep_view() == enriched(old(record).deep_view(), gazetteer@),
        res.0 == enrichment(old(record).deep_view(), gazetteer@),
        res.1 == (if res.0 == EnrichmentResult::Filled {
            Some(LocationSource::FoundText)
        } else {
            None
        }),
        res.0 != EnrichmentResult::Filled ==> *final(record) == *old(record),
{
    if record.location.is_some() {
        return (EnrichmentResult::AlreadySet, None);
    }
    let parsed = match &record.found_location_text {
        Some(text) => parser::parse_found_location(text, gazetteer),
        None => return (EnrichmentResult::NotResolved, None),
    };
    match parsed {
        ParsedLocation::Resolved(loc) => {
            record.location = Some(loc);
            (EnrichmentResult::Filled, Some(LocationSource::FoundText))
        },
        ParsedLocation::NotInGazetteer => (EnrichmentResult::NotResolved, None),
        ParsedLocation::Unrecognised => (EnrichmentResult::NotResolved, None),
    }
}

// ---------------------------------------------------------------------------
// Laws
// ---------------------------------------------------------------------------

/// Filling a record in twice comes to the same as filling it in once: after a
/// location was filled in, it is already set.
pub proof fn enrichment_is_idempotent(rec: PetRecordView, entries: Seq<EntryView>)
    ensures
        enriched(enriched(rec, entries), entries) == enriched(rec, entries),
        enrichment(rec, entries) == EnrichmentResult::Filled ==> enrichment(
            enriched(rec, entries),
            entries,
        ) == EnrichmentResult::AlreadySet,
        enrichment(rec, entries) != EnrichmentResult::Filled ==> enrichment(
            enriched(rec, entries),
            entries,
        ) == enrichment(rec, entries),
{
}

/// A location that is set is never overwritten, and nothing but the location of
/// a record ever changes.
pub proof fn only_a_missing_location_changes(rec: PetRecordView, entries: Seq<EntryView>)
    ensures
        rec.location is Some ==> enriched(rec, entries) == rec,
        enriched(rec, entries) == (PetRecordView {
            location: enriched(rec, entries).location,
            ..rec
        }),
{
}

/// A record is filled in exactly when it comes to have a location that it did
/// not have.
pub proof fn filled_means_located(rec: PetRecordView, entries: Seq<EntryView>)
    ensures
        enrichment(rec, entries) == EnrichmentResult::Filled <==> rec.location is None && enriched(
            rec,
            entries,
        ).location is Some,
{
}

/// A record without a location gets the one that its text is resolved to, and is
/// then filled; a text that is not resolved, or none, leaves it as it is.
pub proof fn locations_come_from_the_text(rec: PetRecordView, entries: Seq<EntryView>)
    requires
        rec.location is None,
    ensures
        rec.found_location_text matches Some(text) ==> match parser::parsed_location(
            text,
            entries,
        ) {
            ParsedView::Resolved(loc) => enriched(rec, entries).location == Some(loc)
                && enrichment(rec, entries) == EnrichmentResult::Filled,
            ParsedView::NotInGazetteer => enriched(rec, entries) == rec && enrichment(rec, entries)
                == EnrichmentResult::NotResolved,
            ParsedView::Unrecognised => enriched(rec, entries) == rec && enrichment(rec, entries)
                == EnrichmentResult::NotResolved,
        },
        rec.found_location_text is None ==> enriched(rec, entries) == rec && enrichment(
            rec,
            entries,
        ) == EnrichmentResult::NotResolved,
{
}

} // verus!
