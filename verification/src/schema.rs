//! The canonical record that every source is normalized into.

use vstd::prelude::*;

use crate::text;
use crate::time;
use crate::time::{Moment, Timestamp};

verus! {

/// The species that are followed.
#[derive(Debug, Clone, Copy, PartialEq, Eq, Structural)]
pub enum Species {
    /// A dog.
    Dog,
    /// A cat.
    Cat,
}

/// The species that a feed's exact word names.
pub open spec fn strict_species(s: Seq<char>) -> Option<Species> {
    if s == "dog"@ {
        Some(Species::Dog)
    } else if s == "cat"@ {
        Some(Species::Cat)
    } else {
        None
    }
}

impl Species {
    /// The species that a feed's exact word names: `dog` or `cat`.
    pub fn from_str_strict(s: &str) -> (res: Option<Species>)
        ensures
            res == strict_species(s@),
    {
        if text::same(s, "dog") {
            Some(Species::Dog)
        } else if text::same(s, "cat") {
            Some(Species::Cat)
        } else {
            None
        }
    }
}

/// How an animal came to be listed.
#[derive(Debug, Clone, Copy, PartialEq, Eq, Structural)]
pub enum IntakeType {
    /// Picked up as a stray.
    Stray,
    /// Given up by its owner.
    OwnerSurrender,
    /// Reported found by a member of the public.
    FoundReport,
    /// Reported lost by its owner.
    LostReport,
    /// Moved in from another shelter.
    Transfer,
    /// Listed for adoption.
    Adoptable,
    /// Not known.
    Unknown,
}

/// Where an animal stands now.
#[derive(Debug, Clone, Copy, PartialEq, Eq, Structural)]
pub enum Availability {
    /// Held by the shelter.
    InCustody,
    /// Up for adoption.
    Adoptable,
    /// No longer there.
    Departed,
    /// Still being looked for.
    Missing,
    /// With the person who found it.
    Available,
    /// Not known.
    Unknown,
}

/// What is known of a microchip.
#[derive(Debug, Clone, PartialEq, Eq)]
pub enum ChipStatus {
    /// Scanned, with a chip found.
    Scanned {
        /// The chip's number, where it is given.
        chip: Option<String>,
    },
    /// Scanned, without a chip.
    ScanNoChip,
    /// Not scanned.
    NotScanned,
    /// Not known.
    Unknown,
}

/// The model of a [`ChipStatus`].
pub enum ChipStatusView {
    /// Scanned, with a chip found.
    Scanned { chip: Option<Seq<char>> },
    /// Scanned, without a chip.
    ScanNoChip,
    /// Not scanned.
    NotScanned,
    /// Not known.
    Unknown,
}

impl DeepView for ChipStatus {
    type V = ChipStatusView;

    open spec fn deep_view(&self) -> ChipStatusView {
        match self {
            ChipStatus::Scanned { chip } => ChipStatusView::Scanned { chip: chip.deep_view() },
            ChipStatus::ScanNoChip => ChipStatusView::ScanNoChip,
            ChipStatus::NotScanned => ChipStatusView::NotScanned,
            ChipStatus::Unknown => ChipStatusView::Unknown,
        }
    }
}

/// Sex and whether the animal is altered.
#[derive(Debug, Clone, Copy, PartialEq, Eq, Structural)]
pub enum Sex {
    /// Male.
    Male,
    /// Female.
    Female,
    /// Neutered male.
    NeuteredMale,
    /// Spayed female.
    SpayedFemale,
    /// Not known.
    Unknown,
}

/// Age, coarsely.
#[derive(Debug, Clone, Copy, PartialEq, Eq, Structural)]
pub enum AgeBucket {
    /// Puppy or kitten.
    Baby,
    /// Young.
    Young,
    /// Adult.
    Adult,
    /// Senior.
    Senior,
}

/// Size, coarsely.
#[derive(Debug, Clone, Copy, PartialEq, Eq, Structural)]
pub enum Size {
    /// Small.
    Small,
    /// Medium.
    Medium,
    /// Large.
    Large,
    /// Extra large.
    ExtraLarge,
}

/// The terms under which a source may be used.
#[derive(Debug, Clone, Copy, PartialEq, Eq, Structural)]
pub enum TosClass {
    /// Open government data.
    OpenData,
    /// An API with a key.
    Api,
    /// A nonprofit that asks for attribution.
    NonprofitAttributionRequired,
}

/// A source, by name and terms.
#[derive(Debug, Clone, PartialEq, Eq)]
pub struct SourceId {
    /// The source's name.
    pub name: String,
    /// The terms of its use.
    pub tos_class: TosClass,
}

/// The model of a [`SourceId`].
pub struct SourceIdView {
    /// The source's name.
    pub name: Seq<char>,
    /// The terms of its use.
    pub tos_class: TosClass,
}

impl DeepView for SourceId {
    type V = SourceIdView;

    open spec fn deep_view(&self) -> SourceIdView {
        SourceIdView { name: self.name@, tos_class: self.tos_class }
    }
}

impl SourceId {
    /// The source of this name and these terms.
    pub fn new(name: &str, tos_class: TosClass) -> (res: SourceId)
        ensures
            res.deep_view() == (SourceIdView { name: name@, tos_class }),
    {
        SourceId { name: name.to_owned(), tos_class }
    }
}

/// Where and when records were fetched.
#[derive(Debug, Clone, PartialEq, Eq)]
pub struct Provenance {
    /// The source.
    pub source: SourceId,
    /// When it was read.
    pub fetched_at: Timestamp,
    /// The address that was read.
    pub source_url: Option<String>,
    /// The version tag that came with it.
    pub source_etag: Option<String>,
}

/// The model of a [`Provenance`].
pub struct ProvenanceView {
    /// The source.
    pub source: SourceIdView,
    /// When it was read.
    pub fetched_at: Moment,
    /// The address that was read.
    pub source_url: Option<Seq<char>>,
    /// The version tag that came with it.
    pub source_etag: Option<Seq<char>>,
}

impl DeepView for Provenance {
    type V = ProvenanceView;

    open spec fn deep_view(&self) -> ProvenanceView {
        ProvenanceView {
            source: self.source.deep_view(),
            fetched_at: self.fetched_at@,
            source_url: self.source_url.deep_view(),
            source_etag: self.source_etag.deep_view(),
        }
    }
}

/// A photo, by its address. The picture itself is never held.
#[derive(Debug, Clone, PartialEq, Eq)]
pub struct PhotoRef {
    /// Where the photo is.
    pub url: String,
    /// Whom to credit.
    pub attribution: Option<String>,
    /// Whether it is the main photo.
    pub is_primary: bool,
}

/// The model of a [`PhotoRef`].
pub struct PhotoRefView {
    /// Where the photo is.
    pub url: Seq<char>,
    /// Whom to credit.
    pub attribution: Option<Seq<char>>,
    /// Whether it is the main photo.
    pub is_primary: bool,
}

impl DeepView for PhotoRef {
    type V = PhotoRefView;

    open spec fn deep_view(&self) -> PhotoRefView {
        PhotoRefView {
            url: self.url@,
            attribution: self.attribution.deep_view(),
            is_primary: self.is_primary,
        }
    }
}

/// A coarse location. A coordinate `n` stands for `n / 10^precision` degrees.
#[derive(Debug, Clone, PartialEq, Eq)]
pub struct ShelterLocation {
    /// Latitude, in units of `10^-precision` degrees.
    pub lat: Option<i64>,
    /// Longitude, in units of `10^-precision` degrees.
    pub lon: Option<i64>,
    /// The number of decimal places that are kept.
    pub precision: u8,
    /// City or county.
    pub city_county: String,
    /// Two-letter state.
    pub state: Option<String>,
}

/// The model of a [`ShelterLocation`].
pub struct LocationView {
    /// Latitude, in units of `10^-precision` degrees.
    pub lat: Option<i64>,
    /// Longitude, in units of `10^-precision` degrees.
    pub lon: Option<i64>,
    /// The number of decimal places that are kept.
    pub precision: u8,
    /// City or county.
    pub city_county: Seq<char>,
    /// Two-letter state.
    pub state: Option<Seq<char>>,
}

impl DeepView for ShelterLocation {
    type V = LocationView;

    open spec fn deep_view(&self) -> LocationView {
        LocationView {
            lat: self.lat,
            lon: self.lon,
            precision: self.precision,
            city_county: self.city_county@,
            state: self.state.deep_view(),
        }
    }
}

impl ShelterLocation {
    /// A location from coordinates in units of `10^-precision` degrees.
    pub fn new(
        lat: Option<i64>,
        lon: Option<i64>,
        precision: u8,
        city_county: String,
        state: Option<String>,
    ) -> (res: ShelterLocation)
        ensures
            res.deep_view() == (LocationView {
                lat,
                lon,
                precision,
                city_county: city_county@,
                state: state.deep_view(),
            }),
    {
        ShelterLocation { lat, lon, precision, city_county, state }
    }
}

/// One animal as one source lists it.
#[derive(Debug, Clone, PartialEq, Eq)]
pub struct PetRecord {
    /// This record's own identifier.
    pub canonical_id: u128,
    /// Where the record comes from.
    pub source: SourceId,
    /// The source's identifier for the animal.
    pub source_animal_id: Option<String>,
    /// The species.
    pub species: Species,
    /// The main breed.
    pub breed_primary: Option<String>,
    /// A second breed.
    pub breed_secondary: Option<String>,
    /// The sex.
    pub sex: Option<Sex>,
    /// The age.
    pub age_bucket: Option<AgeBucket>,
    /// The size.
    pub size: Option<Size>,
    /// The colors.
    pub colors: Vec<String>,
    /// Free text on the animal's looks.
    pub markings_text: Option<String>,
    /// How the animal came to be listed.
    pub intake_type: IntakeType,
    /// Where the animal stands now.
    pub availability: Availability,
    /// What is known of a microchip.
    pub chip_status: ChipStatus,
    /// Where the animal is.
    pub location: Option<ShelterLocation>,
    /// Where the animal was found, in the source's words.
    pub found_location_text: Option<String>,
    /// Photos, by address.
    pub photos: Vec<PhotoRef>,
    /// When the animal was first seen.
    pub first_seen: Timestamp,
    /// When the animal was last seen.
    pub last_seen: Timestamp,
    /// When the listing was last confirmed.
    pub last_confirmed: Option<Timestamp>,
    /// When the animal came in.
    pub intake_date: Option<Timestamp>,
    /// When the animal left.
    pub outcome_date: Option<Timestamp>,
    /// Other sources that list the same animal.
    pub secondary_provenances: Vec<Provenance>,
}

/// The model of a [`PetRecord`].
pub struct PetRecordView {
    /// This record's own identifier.
    pub canonical_id: u128,
    /// Where the record comes from.
    pub source: SourceIdView,
    /// The source's identifier for the animal.
    pub source_animal_id: Option<Seq<char>>,
    /// The species.
    pub species: Species,
    /// The main breed.
    pub breed_primary: Option<Seq<char>>,
    /// A second breed.
    pub breed_secondary: Option<Seq<char>>,
    /// The sex.
    pub sex: Option<Sex>,
    /// The age.
    pub age_bucket: Option<AgeBucket>,
    /// The size.
    pub size: Option<Size>,
    /// The colors.
    pub colors: Seq<Seq<char>>,
    /// Free text on the animal's looks.
    pub markings_text: Option<Seq<char>>,
    /// How the animal came to be listed.
    pub intake_type: IntakeType,
    /// Where the animal stands now.
    pub availability: Availability,
    /// What is known of a microchip.
    pub chip_status: ChipStatusView,
    /// Where the animal is.
    pub location: Option<LocationView>,
    /// Where the animal was found, in the source's words.
    pub found_location_text: Option<Seq<char>>,
    /// Photos, by address.
    pub photos: Seq<PhotoRefView>,
    /// When the animal was first seen.
    pub first_seen: Moment,
    /// When the animal was last seen.
    pub last_seen: Moment,
    /// When the listing was last confirmed.
    pub last_confirmed: Option<Moment>,
    /// When the animal came in.
    pub intake_date: Option<Moment>,
    /// When the animal left.
    pub outcome_date: Option<Moment>,
    /// Other sources that list the same animal.
    pub secondary_provenances: Seq<ProvenanceView>,
}

impl DeepView for PetRecord {
    type V = PetRecordView;

    open spec fn deep_view(&self) -> PetRecordView {
        PetRecordView {
            canonical_id: self.canonical_id,
            source: self.source.deep_view(),
            source_animal_id: self.source_animal_id.deep_view(),
            species: self.species,
            breed_primary: self.breed_primary.deep_view(),
            breed_secondary: self.breed_secondary.deep_view(),
            sex: self.sex,
            age_bucket: self.age_bucket,
            size: self.size,
            colors: self.colors.deep_view(),
            markings_text: self.markings_text.deep_view(),
            intake_type: self.intake_type,
            availability: self.availability,
            chip_status: self.chip_status.deep_view(),
            location: self.location.deep_view(),
            found_location_text: self.found_location_text.deep_view(),
            photos: self.photos.deep_view(),
            first_seen: self.first_seen@,
            last_seen: self.last_seen@,
            last_confirmed: self.last_confirmed.deep_view(),
            intake_date: self.intake_date.deep_view(),
            outcome_date: self.outcome_date.deep_view(),
            secondary_provenances: self.secondary_provenances.deep_view(),
        }
    }
}

/// An identifier and an instant: what a record takes from the moment it is
/// made.
#[derive(Debug, Clone, Copy)]
pub struct Stamp {
    /// The record's identifier.
    pub id: u128,
    /// The current instant.
    pub now: Timestamp,
}

impl Stamp {
    /// A fresh identifier and the current instant, which is one that a clock can
    /// show. Which identifier and which instant they are is up to chance and time.
    pub fn fresh() -> (res: Stamp)
        ensures
            time::clock_shows(res.now@),
    {
        Stamp { id: crate::ids::new_id(), now: time::now() }
    }

    /// One fresh stamp for each of `n` records, each of an instant that a clock can
    /// show.
    pub fn fresh_row(n: usize) -> (res: Vec<Stamp>)
        ensures
            res.len() == n,
            forall|i: int| 0 <= i < n ==> time::clock_shows((#[trigger] res[i]).now@),
    {
        let mut out: Vec<Stamp> = Vec::new();
        let mut i: usize = 0;
        while i < n
            invariant
                out.len() == i <= n,
                forall|j: int| 0 <= j < i ==> time::clock_shows((#[trigger] out[j]).now@),
            decreases n - i,
        {
            out.push(Stamp::fresh());
            i += 1;
        }
        out
    }
}

/// How far a source has been read: where the next poll begins.
#[derive(Debug, Clone, PartialEq, Eq)]
#[non_exhaustive]
pub enum Cursor {
    /// Everything up to an instant.
    Timestamp(Timestamp),
    /// Whatever a token of the source stands for.
    Opaque(String),
}

impl Cursor {
    /// The instant of a cursor that has one.
    pub open spec fn instant(cursor: Option<Cursor>) -> Option<Moment> {
        match cursor {
            Some(Cursor::Timestamp(ts)) => Some(ts@),
            _ => None,
        }
    }

    /// The instant of a cursor that has one.
    pub fn since(cursor: &Option<Cursor>) -> (res: Option<Timestamp>)
        ensures
            res.deep_view() == Cursor::instant(*cursor),
    {
        match cursor {
            Some(Cursor::Timestamp(ts)) => Some(*ts),
            _ => None,
        }
    }
}

// ---------------------------------------------------------------------------
// Laws
// ---------------------------------------------------------------------------

/// Exactly the words `dog` and `cat` name a species, each its own.
pub proof fn two_words_name_a_species(s: Seq<char>)
    ensures
        strict_species(s) == Some(Species::Dog) <==> s == "dog"@,
        strict_species(s) == Some(Species::Cat) <==> s == "cat"@,
{
    reveal_strlit("dog");
    reveal_strlit("cat");
    assert("dog"@[0] == 'd' && "cat"@[0] == 'c');
}

/// Only a cursor of an instant says where to begin; a token of the source does not.
pub proof fn instants_say_where_to_begin(t: Timestamp, token: String)
    ensures
        Cursor::instant(Some(Cursor::Timestamp(t))) == Some(t@),
        Cursor::instant(Some(Cursor::Opaque(token))) is None,
        Cursor::instant(None) is None,
{
}

} // verus!
