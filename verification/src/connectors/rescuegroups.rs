//! RescueGroups.org JSON:API v5 connector.
//!
//! The search endpoint takes one species at a time, so dogs and cats are asked
//! for one after the other, page by page. Photos, colors, locations and
//! organizations of an animal are references into the page's list of attached
//! resources. An animal that shows up twice is taken once.

use serde_json::Value;
use url::Url;
use vstd::prelude::*;

use crate::decimal;
use crate::error::{ConnectorError, ConnectorErrorView};
use crate::json;
use crate::json::Json;
use crate::outcome;
use crate::query;
use crate::schema::{
    AgeBucket, Availability, ChipStatus, ChipStatusView, Cursor, IntakeType, LocationView,
    PetRecord, PetRecordView, PhotoRef, PhotoRefView, Provenance, ProvenanceView, Sex,
    ShelterLocation, Size, SourceId, SourceIdView, Species, Stamp, TosClass,
};
use crate::span;
use crate::text;
use crate::time;
use crate::time::{Moment, Timestamp};
use crate::web;

verus! {

/// Base URL for the `RescueGroups` JSON:API v5.
pub const BASE_URL: &'static str = "https://api.rescuegroups.org/v5";

/// Page size for paging through results.
pub const PAGE_SIZE: u64 = 250;

/// The pause between requests to the source, in milliseconds.
pub const MIN_INTERVAL_MS: u64 = 1000;

/// The species that are queried, one at a time.
pub const SPECIES: [&'static str; 2] = ["dogs", "cats"];

/// JSON:API filter field name for the delta-poll watermark. The API refuses the
/// name without its prefix.
pub const UPDATED_DATE_FILTER_FIELD: &'static str = "animals.updatedDate";

/// Configuration for the `RescueGroups` connector.
#[derive(Debug, Clone, PartialEq, Eq)]
pub struct RescueGroupsConfig {
    /// API key.
    pub api_key: String,
    /// Base URL.
    pub base_url: String,
}

impl RescueGroupsConfig {
    /// The configuration for an API key; an error where none is set.
    pub fn from_env(api_key: Option<String>) -> (res: Result<Self, ConnectorError>)
        ensures
            match api_key {
                Some(key) => res matches Ok(config) && config.api_key == key && config.base_url@
                    == BASE_URL@,
                None => res matches Err(e) && e.deep_view() == ConnectorErrorView::Config(
                    "RESCUEGROUPS_API_KEY env var not set"@,
                ),
            },
    {
        match api_key {
            Some(api_key) => Ok(RescueGroupsConfig { api_key, base_url: BASE_URL.to_owned() }),
            None => Err(
                ConnectorError::Config("RESCUEGROUPS_API_KEY env var not set".to_owned()),
            ),
        }
    }
}

// ---------------------------------------------------------------------------
// Requests
// ---------------------------------------------------------------------------

/// The address of one page of one species.
pub open spec fn search_url(base_url: Seq<char>, species: Seq<char>, offset: nat) -> Seq<char> {
    base_url + "/public/animals/search/available/"@ + species + "?limit="@ + text::decimal(
        PAGE_SIZE as nat,
    ) + "&offset="@ + text::decimal(offset)
}

/// Builds the search URL for one page of one species.
pub fn build_search_url(base_url: &str, species: &str, offset: u64) -> (res: String)
    ensures
        res@ == search_url(base_url@, species@, offset as nat),
{
    base_url.to_owned().concat("/public/animals/search/available/").concat(species).concat(
        "?limit=",
    ).concat(&text::write_decimal(PAGE_SIZE)).concat("&offset=").concat(
        &text::write_decimal(offset),
    )
}

/// The address of one numbered page of one species, with the resources that its
/// animals refer to.
pub open spec fn page_url(base_url: Seq<char>, species: Seq<char>, page: nat) -> Seq<char> {
    base_url + "/public/animals/search/available/"@ + species + "?limit="@ + text::decimal(
        PAGE_SIZE as nat,
    ) + "&page="@ + text::decimal(page) + "&include=pictures,colors,locations,orgs"@
}

/// Builds the URL for one numbered page of one species, with the resources that
/// its animals refer to.
pub fn build_page_url(base_url: &str, species: &str, page: u64) -> (res: String)
    ensures
        res@ == page_url(base_url@, species@, page as nat),
{
    base_url.to_owned().concat("/public/animals/search/available/").concat(species).concat(
        "?limit=",
    ).concat(&text::write_decimal(PAGE_SIZE)).concat("&page=").concat(
        &text::write_decimal(page),
    ).concat("&include=pictures,colors,locations,orgs")
}

/// The filter that asks for animals updated at an instant or later.
pub open spec fn since_filter(m: Moment) -> Json {
    Json::Object(
        Map::empty().insert("fieldName"@, Json::Text(UPDATED_DATE_FILTER_FIELD@)).insert(
            "operation"@,
            Json::Text("greaterthanorequal"@),
        ).insert("criteria"@, Json::Text(time::rfc3339_seconds(m))),
    )
}

/// The filters of a poll: none for a full poll, the watermark for a delta poll.
pub open spec fn filters_of(since: Option<Moment>) -> Seq<Json> {
    match since {
        Some(m) => seq![since_filter(m)],
        None => Seq::empty(),
    }
}

/// Whether a filter's criteria are what the API takes: an instant in UTC without
/// a space, that reads back as `m` cut to whole seconds. What is read back is
/// left open for years of other than four digits and within a leap second.
pub open spec fn states_instant(filter: Json, m: Moment) -> bool {
    match json::cell_of(filter, "criteria"@) {
        Some(c) => {
            &&& c.len() > 0 && c.last() == 'Z'
            &&& !c.contains(' ')
            &&& m.four_digit_year() && m.nanos < 1_000_000_000 ==> time::reads_as(c, m.secs)
        },
        None => false,
    }
}

/// Builds the JSON:API filters of a poll.
pub fn build_filters(since: Option<&Timestamp>) -> (res: Vec<Value>)
    ensures
        json::all_contents(res@) == filters_of(since.deep_view()),
        since matches Some(ts) ==> res.len() == 1 && states_instant(
            json::contents(res@[0]),
            ts@,
        ),
{
    let mut out: Vec<Value> = Vec::new();
    if let Some(ts) = since {
        let mut members: Vec<(String, Value)> = Vec::new();
        members.push(
            ("fieldName".to_owned(), json::text(UPDATED_DATE_FILTER_FIELD.to_owned())),
        );
        members.push(("operation".to_owned(), json::text("greaterthanorequal".to_owned())));
        members.push(("criteria".to_owned(), json::text(time::write_rfc3339_seconds(ts))));
        proof {
            reveal_with_fuel(json::object_of, 4);
            let two = members@.drop_last();
            let one = two.drop_last();
            assert(one.drop_last() =~= Seq::empty());
            assert(json::object_of(members@) =~= Map::empty().insert(
                "fieldName"@,
                Json::Text(UPDATED_DATE_FILTER_FIELD@),
            ).insert("operation"@, Json::Text("greaterthanorequal"@)).insert(
                "criteria"@,
                Json::Text(time::rfc3339_seconds(ts@)),
            ));
        }
        let filter = json::object(members);
        proof {
            filter_uses_the_known_field(ts@);
        }
        out.push(filter);
    }
    proof {
        assert(json::all_contents(out@) =~= filters_of(since.deep_view()));
    }
    out
}

/// The document that a search is asked with.
pub open spec fn search_document(since: Option<Moment>) -> Json {
    Json::Object(
        Map::empty().insert(
            "data"@,
            Json::Object(Map::empty().insert("filters"@, Json::List(filters_of(since)))),
        ),
    )
}

/// Builds the document that a search is asked with.
pub fn build_search_document(since: Option<&Timestamp>) -> (res: Value)
    ensures
        json::contents(res) == search_document(since.deep_view()),
{
    let filters = json::list(build_filters(since));
    let mut inner: Vec<(String, Value)> = Vec::new();
    inner.push(("filters".to_owned(), filters));
    proof {
        reveal_with_fuel(json::object_of, 2);
        assert(inner@.drop_last() =~= Seq::empty());
        assert(json::object_of(inner@) =~= Map::empty().insert(
            "filters"@,
            Json::List(filters_of(since.deep_view())),
        ));
    }
    let data = json::object(inner);
    let mut outer: Vec<(String, Value)> = Vec::new();
    outer.push(("data".to_owned(), data));
    proof {
        assert(outer@.drop_last() =~= Seq::empty());
        assert(json::object_of(outer@) =~= Map::empty().insert("data"@, json::contents(data)));
    }
    json::object(outer)
}

/// A search to be sent.
pub struct RgRequest {
    /// Where to send it.
    pub url: Url,
    /// What to send.
    pub body: Vec<u8>,
}

/// The parts of a search at an address: the URL's text and the body; or the
/// complaint about either.
pub open spec fn request_to(address: Seq<char>, since: Option<Moment>) -> Result<
    (Seq<char>, Seq<u8>),
    ConnectorErrorView,
> {
    match web::parsed(address) {
        Err(e) => Err(ConnectorErrorView::Url(e)),
        Ok(url) => match json::json_bytes(search_document(since)) {
            Err(e) => Err(ConnectorErrorView::Json(e)),
            Ok(body) => Ok((url, body)),
        },
    }
}

/// The parts of a search for one page of one species.
pub open spec fn request_of(
    base_url: Seq<char>,
    species: Seq<char>,
    offset: nat,
    since: Option<Moment>,
) -> Result<(Seq<char>, Seq<u8>), ConnectorErrorView> {
    request_to(search_url(base_url, species, offset), since)
}

/// The parts of a request, or the error.
pub open spec fn request_view(res: Result<RgRequest, ConnectorError>) -> Result<
    (Seq<char>, Seq<u8>),
    ConnectorErrorView,
> {
    match res {
        Ok(r) => Ok((web::url_text(r.url), r.body@)),
        Err(e) => Err(e.deep_view()),
    }
}

fn build_request_to(address: &str, since: Option<&Timestamp>) -> (res: Result<
    RgRequest,
    ConnectorError,
>)
    ensures
        request_view(res) == request_to(address@, since.deep_view()),
{
    let url = match web::parse(address) {
        Ok(url) => url,
        Err(e) => return Err(ConnectorError::Url(e)),
    };
    match json::to_bytes(&build_search_document(since)) {
        Ok(body) => Ok(RgRequest { url, body }),
        Err(e) => Err(ConnectorError::Json(e)),
    }
}

/// Builds the search for one page of one species.
pub fn build_request(
    base_url: &str,
    species: &str,
    offset: u64,
    since: Option<&Timestamp>,
) -> (res: Result<RgRequest, ConnectorError>)
    ensures
        request_view(res) == request_of(base_url@, species@, offset as nat, since.deep_view()),
{
    build_request_to(&build_search_url(base_url, species, offset), since)
}

// ---------------------------------------------------------------------------
// Replies
// ---------------------------------------------------------------------------

/// The attributes of an animal that are read. Shelters fill in what they have.
pub struct RgAttributes {
    /// Sex.
    pub sex: Option<String>,
    /// Age in words.
    pub age_string: Option<String>,
    /// Size in words.
    pub size_group: Option<String>,
    /// The animal's name.
    pub name: Option<String>,
    /// Breeds in words.
    pub breed_string: Option<String>,
    /// The main breed.
    pub primary_breed: Option<String>,
    /// A second breed.
    pub secondary_breed: Option<String>,
    /// Free text.
    pub description: Option<String>,
    /// When the listing was last updated.
    pub updated_date: Option<String>,
    /// When the listing was made.
    pub created_date: Option<String>,
    /// Where the animal was found.
    pub found_location: Option<String>,
    /// What is known of a microchip.
    pub chip_status: Option<String>,
}

/// The model of [`RgAttributes`].
pub struct RgAttributesView {
    /// Sex.
    pub sex: Option<Seq<char>>,
    /// Age in words.
    pub age_string: Option<Seq<char>>,
    /// Size in words.
    pub size_group: Option<Seq<char>>,
    /// The animal's name.
    pub name: Option<Seq<char>>,
    /// Breeds in words.
    pub breed_string: Option<Seq<char>>,
    /// The main breed.
    pub primary_breed: Option<Seq<char>>,
    /// A second breed.
    pub secondary_breed: Option<Seq<char>>,
    /// Free text.
    pub description: Option<Seq<char>>,
    /// When the listing was last updated.
    pub updated_date: Option<Seq<char>>,
    /// When the listing was made.
    pub created_date: Option<Seq<char>>,
    /// Where the animal was found.
    pub found_location: Option<Seq<char>>,
    /// What is known of a microchip.
    pub chip_status: Option<Seq<char>>,
}

impl DeepView for RgAttributes {
    type V = RgAttributesView;

    open spec fn deep_view(&self) -> RgAttributesView {
        RgAttributesView {
            sex: self.sex.deep_view(),
            age_string: self.age_string.deep_view(),
            size_group: self.size_group.deep_view(),
            name: self.name.deep_view(),
            breed_string: self.breed_string.deep_view(),
            primary_breed: self.primary_breed.deep_view(),
            secondary_breed: self.secondary_breed.deep_view(),
            description: self.description.deep_view(),
            updated_date: self.updated_date.deep_view(),
            created_date: self.created_date.deep_view(),
            found_location: self.found_location.deep_view(),
            chip_status: self.chip_status.deep_view(),
        }
    }
}

/// A reference to an attached resource.
pub struct RgResourceRef {
    /// The resource's type.
    pub kind: String,
    /// The resource's identifier.
    pub id: String,
}

/// The model of an [`RgResourceRef`].
pub struct RgRefView {
    /// The resource's type.
    pub kind: Seq<char>,
    /// The resource's identifier.
    pub id: Seq<char>,
}

impl DeepView for RgResourceRef {
    type V = RgRefView;

    open spec fn deep_view(&self) -> RgRefView {
        RgRefView { kind: self.kind@, id: self.id@ }
    }
}

/// An animal of a page. An animal without references of a kind has an empty
/// list of them.
pub struct RgAnimal {
    /// The source's identifier.
    pub id: String,
    /// Its attributes.
    pub attributes: RgAttributes,
    /// References to its colors.
    pub colors: Vec<RgResourceRef>,
    /// References to its pictures.
    pub pictures: Vec<RgResourceRef>,
    /// References to its locations.
    pub locations: Vec<RgResourceRef>,
    /// References to its organizations.
    pub orgs: Vec<RgResourceRef>,
}

/// The model of an [`RgAnimal`].
pub struct RgAnimalView {
    /// The source's identifier.
    pub id: Seq<char>,
    /// Its attributes.
    pub attributes: RgAttributesView,
    /// References to its colors.
    pub colors: Seq<RgRefView>,
    /// References to its pictures.
    pub pictures: Seq<RgRefView>,
    /// References to its locations.
    pub locations: Seq<RgRefView>,
    /// References to its organizations.
    pub orgs: Seq<RgRefView>,
}

impl DeepView for RgAnimal {
    type V = RgAnimalView;

    open spec fn deep_view(&self) -> RgAnimalView {
        RgAnimalView {
            id: self.id@,
            attributes: self.attributes.deep_view(),
            colors: self.colors.deep_view(),
            pictures: self.pictures.deep_view(),
            locations: self.locations.deep_view(),
            orgs: self.orgs.deep_view(),
        }
    }
}

/// A resource attached to a page.
pub struct RgIncludedItem {
    /// The resource's type.
    pub kind: String,
    /// The resource's identifier.
    pub id: String,
    /// The resource itself.
    pub attributes: Value,
}

/// The model of an [`RgIncludedItem`].
pub struct RgIncludedView {
    /// The resource's type.
    pub kind: Seq<char>,
    /// The resource's identifier.
    pub id: Seq<char>,
    /// The resource itself.
    pub attributes: Json,
}

impl DeepView for RgIncludedItem {
    type V = RgIncludedView;

    open spec fn deep_view(&self) -> RgIncludedView {
        RgIncludedView {
            kind: self.kind@,
            id: self.id@,
            attributes: json::contents(self.attributes),
        }
    }
}

/// One page of animals.
pub struct RgPage {
    /// The animals.
    pub data: Vec<RgAnimal>,
    /// How many animals match on all pages.
    pub total: u64,
    /// The resources that the animals refer to.
    pub included: Vec<RgIncludedItem>,
}

/// The resource that a reference stands for: the last attached one of that type
/// and identifier.
pub open spec fn lookup(included: Seq<RgIncludedView>, r: RgRefView) -> Option<Json>
    decreases included.len(),
{
    if included.len() == 0 {
        None
    } else if included.last().kind == r.kind && included.last().id == r.id {
        Some(included.last().attributes)
    } else {
        lookup(included.drop_last(), r)
    }
}

/// The resource that a reference stands for: the last attached one of that type
/// and identifier.
pub fn find_included<'a>(included: &'a Vec<RgIncludedItem>, r: &RgResourceRef) -> (res: Option<
    &'a Value,
>)
    ensures
        match res {
            Some(v) => lookup(included.deep_view(), r.deep_view()) == Some(json::contents(*v)),
            None => lookup(included.deep_view(), r.deep_view()) is None,
        },
{
    let ghost all = included.deep_view();
    let mut n: usize = included.len();
    proof {
        assert(all.take(n as int) == all);
    }
    while n > 0
        invariant
            n <= included.len(),
            all == included.deep_view(),
            lookup(all.take(n as int), r.deep_view()) == lookup(all, r.deep_view()),
        decreases n,
    {
        proof {
            assert(all.take(n as int).drop_last() == all.take(n - 1));
            assert(all.take(n as int).last() == included@[n - 1].deep_view());
        }
        let item = &included[n - 1];
        if text::same(&item.kind, &r.kind) && text::same(&item.id, &r.id) {
            return Some(&item.attributes);
        }
        n -= 1;
    }
    None
}

/// The species of a query segment.
pub open spec fn species_of_query(species: Seq<char>) -> Species {
    if species == "cats"@ {
        Species::Cat
    } else {
        Species::Dog
    }
}

/// The species of a query segment.
pub fn species_from_query(species: &str) -> (res: Species)
    ensures
        res == species_of_query(species@),
{
    if text::same(species, "cats") {
        Species::Cat
    } else {
        Species::Dog
    }
}

/// The photo that a picture resource describes: the large variant, or else the
/// original, or else the small one, where that has an address. The first in
/// order is the main photo.
pub open spec fn photo_of(attrs: Json) -> Option<PhotoRefView> {
    let variant = if json::member(attrs, "large"@) is Some {
        json::member(attrs, "large"@)
    } else if json::member(attrs, "original"@) is Some {
        json::member(attrs, "original"@)
    } else {
        json::member(attrs, "small"@)
    };
    match variant {
        None => None,
        Some(v) => match json::cell_of(v, "url"@) {
            None => None,
            Some(url) => Some(
                PhotoRefView {
                    url,
                    attribution: None,
                    is_primary: json::member(attrs, "order"@) == Some(Json::Int(1)),
                },
            ),
        },
    }
}

fn read_photo(attrs: &Value) -> (res: Option<PhotoRef>)
    ensures
        res.deep_view() == photo_of(json::contents(*attrs)),
{
    let variant = match json::get(attrs, "large") {
        Some(v) => v,
        None => match json::get(attrs, "original") {
            Some(v) => v,
            None => match json::get(attrs, "small") {
                Some(v) => v,
                None => return None,
            },
        },
    };
    let url = match json::cell(variant, "url") {
        Some(url) => url,
        None => return None,
    };
    let is_primary = match json::get(attrs, "order") {
        Some(v) => match v.as_u64() {
            Some(n) => n == 1,
            None => false,
        },
        None => false,
    };
    Some(PhotoRef { url: url.to_owned(), attribution: None, is_primary })
}

/// The photos that a row of references stands for; references to nothing, or to
/// resources without an address, are skipped.
pub open spec fn photos_of(refs: Seq<RgRefView>, included: Seq<RgIncludedView>) -> Seq<PhotoRefView>
    decreases refs.len(),
{
    if refs.len() == 0 {
        Seq::empty()
    } else {
        let before = photos_of(refs.drop_last(), included);
        match lookup(included, refs.last()) {
            Some(attrs) => match photo_of(attrs) {
                Some(photo) => before.push(photo),
                None => before,
            },
            None => before,
        }
    }
}

/// Resolves references to pictures into photos.
pub fn resolve_photos(refs: &Vec<RgResourceRef>, included: &Vec<RgIncludedItem>) -> (res: Vec<
    PhotoRef,
>)
    ensures
        res.deep_view() == photos_of(refs.deep_view(), included.deep_view()),
{
    let ghost all = refs.deep_view();
    let mut out: Vec<PhotoRef> = Vec::new();
    let mut i: usize = 0;
    while i < refs.len()
        invariant
            i <= refs.len(),
            all == refs.deep_view(),
            out.deep_view() =~= photos_of(all.take(i as int), included.deep_view()),
        decreases refs.len() - i,
    {
        proof {
            assert(all.take(i + 1).drop_last() == all.take(i as int));
            assert(all.take(i + 1).last() == refs@[i as int].deep_view());
        }
        if let Some(attrs) = find_included(included, &refs[i]) {
            if let Some(photo) = read_photo(attrs) {
                let ghost sofar = out.deep_view();
                out.push(photo);
                assert(out.deep_view() =~= sofar.push(photo.deep_view()));
            }
        }
        i += 1;
    }
    proof {
        assert(all.take(refs.len() as int) == all);
    }
    out
}

/// The color names that a row of references stands for; references to nothing,
/// or to resources without a name, are skipped.
pub open spec fn colors_of(refs: Seq<RgRefView>, included: Seq<RgIncludedView>) -> Seq<Seq<char>>
    decreases refs.len(),
{
    if refs.len() == 0 {
        Seq::empty()
    } else {
        let before = colors_of(refs.drop_last(), included);
        match lookup(included, refs.last()) {
            Some(attrs) => match json::cell_of(attrs, "name"@) {
                Some(name) => before.push(name),
                None => before,
            },
            None => before,
        }
    }
}

/// Resolves references to colors into their names.
pub fn resolve_colors(refs: &Vec<RgResourceRef>, included: &Vec<RgIncludedItem>) -> (res: Vec<
    String,
>)
    ensures
        res.deep_view() == colors_of(refs.deep_view(), included.deep_view()),
{
    let ghost all = refs.deep_view();
    let mut out: Vec<String> = Vec::new();
    let mut i: usize = 0;
    while i < refs.len()
        invariant
            i <= refs.len(),
            all == refs.deep_view(),
            out.deep_view() =~= colors_of(all.take(i as int), included.deep_view()),
        decreases refs.len() - i,
    {
        proof {
            assert(all.take(i + 1).drop_last() == all.take(i as int));
            assert(all.take(i + 1).last() == refs@[i as int].deep_view());
        }
        if let Some(attrs) = find_included(included, &refs[i]) {
            if let Some(name) = json::cell(attrs, "name") {
                let ghost sofar = out.deep_view();
                out.push(name.to_owned());
                assert(out.deep_view() =~= sofar.push(name@));
            }
        }
        i += 1;
    }
    proof {
        assert(all.take(refs.len() as int) == all);
    }
    out
}

/// How many decimal places of a coordinate are kept.
pub const LOCATION_PRECISION: u8 = 2;

/// The coordinate that a member of a resource holds, coarsened, where it is a
/// number.
pub open spec fn coordinate_of(attrs: Json, key: Seq<char>) -> Option<i64> {
    match json::member(attrs, key) {
        Some(v) => match json::number_text_of(v) {
            Some(s) => decimal::in_units(s, LOCATION_PRECISION as nat),
            None => None,
        },
        None => None,
    }
}

fn read_coordinate(attrs: &Value, key: &str) -> (res: Option<i64>)
    ensures
        res == coordinate_of(json::contents(*attrs), key@),
{
    match json::get(attrs, key) {
        Some(v) => match json::number_text(v) {
            Some(s) => decimal::round_number(&s, LOCATION_PRECISION),
            None => None,
        },
        None => None,
    }
}

/// The coarse location that a resource describes, where it names a city.
pub open spec fn location_of(attrs: Json) -> Option<LocationView> {
    match json::cell_of(attrs, "city"@) {
        Some(city) => Some(
            LocationView {
                lat: coordinate_of(attrs, "lat"@),
                lon: coordinate_of(attrs, "lon"@),
                precision: LOCATION_PRECISION,
                city_county: city,
                state: json::cell_of(attrs, "state"@),
            },
        ),
        None => None,
    }
}

fn read_location(attrs: &Value) -> (res: Option<ShelterLocation>)
    ensures
        res.deep_view() == location_of(json::contents(*attrs)),
{
    match json::cell(attrs, "city") {
        Some(city) => {
            let state = match json::cell(attrs, "state") {
                Some(s) => Some(s.to_owned()),
                None => None,
            };
            Some(
                ShelterLocation::new(
                    read_coordinate(attrs, "lat"),
                    read_coordinate(attrs, "lon"),
                    LOCATION_PRECISION,
                    city.to_owned(),
                    state,
                ),
            )
        },
        None => None,
    }
}

/// The first location that a row of references stands for.
pub open spec fn first_location(refs: Seq<RgRefView>, included: Seq<RgIncludedView>) -> Option<
    LocationView,
>
    decreases refs.len(),
{
    if refs.len() == 0 {
        None
    } else {
        match first_location(refs.drop_last(), included) {
            Some(loc) => Some(loc),
            None => match lookup(included, refs.last()) {
                Some(attrs) => location_of(attrs),
                None => None,
            },
        }
    }
}

/// Once there is a first location, further references do not change it.
proof fn lemma_first_stays(refs: Seq<RgRefView>, included: Seq<RgIncludedView>, n: int)
    requires
        0 <= n <= refs.len(),
        first_location(refs.take(n), included) is Some,
    ensures
        first_location(refs, included) == first_location(refs.take(n), included),
    decreases refs.len(),
{
    if n == refs.len() {
        assert(refs.take(n) =~= refs);
    } else {
        assert(refs.drop_last().take(n) =~= refs.take(n));
        lemma_first_stays(refs.drop_last(), included, n);
    }
}

/// Resolves references into the first location that one of them stands for.
pub fn resolve_location(refs: &Vec<RgResourceRef>, included: &Vec<RgIncludedItem>) -> (res: Option<
    ShelterLocation,
>)
    ensures
        res.deep_view() == first_location(refs.deep_view(), included.deep_view()),
{
    let ghost all = refs.deep_view();
    let mut i: usize = 0;
    assert(all.take(0) =~= Seq::empty());
    while i < refs.len()
        invariant
            i <= refs.len(),
            all == refs.deep_view(),
            first_location(all.take(i as int), included.deep_view()) is None,
        decreases refs.len() - i,
    {
        proof {
            assert(all.take(i + 1).drop_last() == all.take(i as int));
            assert(all.take(i + 1).last() == refs@[i as int].deep_view());
        }
        if let Some(attrs) = find_included(included, &refs[i]) {
            if let Some(loc) = read_location(attrs) {
                proof {
                    assert(location_of(json::contents(*attrs)) == Some(loc.deep_view()));
                    lemma_first_stays(all, included.deep_view(), i + 1);
                }
                return Some(loc);
            }
        }
        i += 1;
    }
    proof {
        assert(all.take(refs.len() as int) == all);
    }
    None
}

/// The location of an animal: that of its locations or, where they give none,
/// that of its organizations.
pub open spec fn rg_location(animal: RgAnimalView, included: Seq<RgIncludedView>) -> Option<
    LocationView,
> {
    match first_location(animal.locations, included) {
        Some(loc) => Some(loc),
        None => first_location(animal.orgs, included),
    }
}

fn locate(animal: &RgAnimal, included: &Vec<RgIncludedItem>) -> (res: Option<ShelterLocation>)
    ensures
        res.deep_view() == rg_location(animal.deep_view(), included.deep_view()),
{
    match resolve_location(&animal.locations, included) {
        Some(loc) => Some(loc),
        None => resolve_location(&animal.orgs, included),
    }
}

// ---------------------------------------------------------------------------
// Normalization
// ---------------------------------------------------------------------------

/// The sex that a word names.
pub open spec fn sex_of(s: Seq<char>) -> Sex {
    let word = text::lowercase(s);
    if word == "male"@ || word == "m"@ {
        Sex::Male
    } else if word == "female"@ || word == "f"@ {
        Sex::Female
    } else if word == "neutered male"@ || word == "neutered"@ {
        Sex::NeuteredMale
    } else if word == "spayed female"@ || word == "spayed"@ {
        Sex::SpayedFemale
    } else {
        Sex::Unknown
    }
}

/// The sex that a word names.
pub fn parse_sex(s: &str) -> (res: Sex)
    ensures
        res == sex_of(s@),
{
    let word = text::lower(s);
    if text::same(&word, "male") || text::same(&word, "m") {
        Sex::Male
    } else if text::same(&word, "female") || text::same(&word, "f") {
        Sex::Female
    } else if text::same(&word, "neutered male") || text::same(&word, "neutered") {
        Sex::NeuteredMale
    } else if text::same(&word, "spayed female") || text::same(&word, "spayed") {
        Sex::SpayedFemale
    } else {
        Sex::Unknown
    }
}

/// The age that a text speaks of; adult where it speaks of none.
pub open spec fn age_of(s: Seq<char>) -> AgeBucket {
    let word = text::lowercase(s);
    if text::has(word, "baby"@) || text::has(word, "puppy"@) || text::has(word, "kitten"@) {
        AgeBucket::Baby
    } else if text::has(word, "young"@) || text::has(word, "juvenile"@) {
        AgeBucket::Young
    } else if text::has(word, "adult"@) {
        AgeBucket::Adult
    } else if text::has(word, "senior"@) || text::has(word, "older"@) {
        AgeBucket::Senior
    } else {
        AgeBucket::Adult
    }
}

/// The age that a text speaks of; adult where it speaks of none.
pub fn parse_age(s: &str) -> (res: AgeBucket)
    ensures
        res == age_of(s@),
{
    let word = text::lower(s);
    if text::contains(&word, "baby") || text::contains(&word, "puppy") || text::contains(
        &word,
        "kitten",
    ) {
        AgeBucket::Baby
    } else if text::contains(&word, "young") || text::contains(&word, "juvenile") {
        AgeBucket::Young
    } else if text::contains(&word, "adult") {
        AgeBucket::Adult
    } else if text::contains(&word, "senior") || text::contains(&word, "older") {
        AgeBucket::Senior
    } else {
        AgeBucket::Adult
    }
}

/// The size that a text speaks of; small where it speaks of none.
pub open spec fn size_of(s: Seq<char>) -> Size {
    let word = text::lowercase(s);
    if text::has(word, "extra large"@) || text::has(word, "x-large"@) || text::has(
        word,
        "xlarge"@,
    ) {
        Size::ExtraLarge
    } else if text::has(word, "large"@) {
        Size::Large
    } else if text::has(word, "medium"@) {
        Size::Medium
    } else {
        Size::Small
    }
}

/// The size that a text speaks of; small where it speaks of none.
pub fn parse_size(s: &str) -> (res: Size)
    ensures
        res == size_of(s@),
{
    let word = text::lower(s);
    if text::contains(&word, "extra large") || text::contains(&word, "x-large") || text::contains(
        &word,
        "xlarge",
    ) {
        Size::ExtraLarge
    } else if text::contains(&word, "large") {
        Size::Large
    } else if text::contains(&word, "medium") {
        Size::Medium
    } else {
        Size::Small
    }
}

/// What a text says of a microchip: a denial wins over an affirmation.
pub open spec fn rg_chip_status(s: Seq<char>) -> ChipStatusView {
    let word = text::lowercase(s);
    if text::has(word, "no"@) || text::has(word, "not"@) || text::has(word, "none"@) {
        ChipStatusView::ScanNoChip
    } else if text::has(word, "chip"@) || text::has(word, "scanned"@) || text::has(word, "yes"@) {
        ChipStatusView::Scanned { chip: None }
    } else {
        ChipStatusView::Unknown
    }
}

/// What a text says of a microchip: a denial wins over an affirmation.
pub fn parse_chip_status(s: &str) -> (res: ChipStatus)
    ensures
        res.deep_view() == rg_chip_status(s@),
{
    let word = text::lower(s);
    if text::contains(&word, "no") || text::contains(&word, "not") || text::contains(
        &word,
        "none",
    ) {
        ChipStatus::ScanNoChip
    } else if text::contains(&word, "chip") || text::contains(&word, "scanned")
        || text::contains(&word, "yes") {
        ChipStatus::Scanned { chip: None }
    } else {
        ChipStatus::Unknown
    }
}

/// The instant of an RFC 3339 text that may be missing, with a stand-in.
pub open spec fn instant_or(s: Option<Seq<char>>, other: Moment) -> Moment {
    match s {
        Some(v) => match time::rfc3339_instant(v) {
            Ok(m) => m,
            Err(_) => other,
        },
        None => other,
    }
}

/// The instant of an RFC 3339 text that may be missing, with a stand-in.
pub fn read_instant_or(s: &Option<String>, other: Timestamp) -> (res: Timestamp)
    ensures
        res@ == instant_or(s.deep_view(), other@),
{
    match s {
        Some(v) => match time::read_rfc3339(v) {
            Ok(ts) => ts,
            Err(_) => other,
        },
        None => other,
    }
}

/// The record of an animal that was read at `now`.
pub open spec fn rg_record(
    animal: RgAnimalView,
    species: Species,
    included: Seq<RgIncludedView>,
    id: u128,
    now: Moment,
) -> PetRecordView {
    let attr = animal.attributes;
    let last_seen = instant_or(attr.updated_date, now);
    PetRecordView {
        canonical_id: id,
        source: SourceIdView { name: "rescuegroups"@, tos_class: TosClass::Api },
        source_animal_id: Some(animal.id),
        species,
        breed_primary: if attr.primary_breed is Some {
            attr.primary_breed
        } else {
            attr.breed_string
        },
        breed_secondary: attr.secondary_breed,
        sex: match attr.sex {
            Some(s) => Some(sex_of(s)),
            None => None,
        },
        age_bucket: match attr.age_string {
            Some(s) => Some(age_of(s)),
            None => None,
        },
        size: match attr.size_group {
            Some(s) => Some(size_of(s)),
            None => None,
        },
        colors: colors_of(animal.colors, included),
        markings_text: attr.description,
        intake_type: IntakeType::Adoptable,
        availability: Availability::Adoptable,
        chip_status: match attr.chip_status {
            Some(s) => rg_chip_status(s),
            None => ChipStatusView::Unknown,
        },
        location: rg_location(animal, included),
        found_location_text: attr.found_location,
        photos: photos_of(animal.pictures, included),
        first_seen: instant_or(attr.created_date, last_seen),
        last_seen,
        last_confirmed: Some(now),
        intake_date: None,
        outcome_date: None,
        secondary_provenances: Seq::empty(),
    }
}

/// A copy of a text that may be missing.
pub fn copy(s: &Option<String>) -> (res: Option<String>)
    ensures
        res.deep_view() == s.deep_view(),
{
    match s {
        Some(v) => Some(v.clone()),
        None => None,
    }
}

/// Normalizes one animal that was read at the stamp's instant.
pub fn normalize_rg_record_at(
    animal: &RgAnimal,
    species: Species,
    included: &Vec<RgIncludedItem>,
    stamp: &Stamp,
) -> (res: PetRecord)
    ensures
        res.deep_view() == rg_record(
            animal.deep_view(),
            species,
            included.deep_view(),
            stamp.id,
            stamp.now@,
        ),
{
    let attr = &animal.attributes;
    let last_seen = read_instant_or(&attr.updated_date, stamp.now);
    let first_seen = read_instant_or(&attr.created_date, last_seen);
    let sex = match &attr.sex {
        Some(s) => Some(parse_sex(s)),
        None => None,
    };
    let age_bucket = match &attr.age_string {
        Some(s) => Some(parse_age(s)),
        None => None,
    };
    let size = match &attr.size_group {
        Some(s) => Some(parse_size(s)),
        None => None,
    };
    let breed_primary = match &attr.primary_breed {
        Some(s) => Some(s.clone()),
        None => copy(&attr.breed_string),
    };
    let chip_status = match &attr.chip_status {
        Some(s) => parse_chip_status(s),
        None => ChipStatus::Unknown,
    };
    let rec = PetRecord {
        canonical_id: stamp.id,
        source: SourceId::new("rescuegroups", TosClass::Api),
        source_animal_id: Some(animal.id.clone()),
        species,
        breed_primary,
        breed_secondary: copy(&attr.secondary_breed),
        sex,
        age_bucket,
        size,
        colors: resolve_colors(&animal.colors, included),
        markings_text: copy(&attr.description),
        intake_type: IntakeType::Adoptable,
        availability: Availability::Adoptable,
        chip_status,
        location: locate(animal, included),
        found_location_text: copy(&attr.found_location),
        photos: resolve_photos(&animal.pictures, included),
        first_seen,
        last_seen,
        last_confirmed: Some(stamp.now),
        intake_date: None,
        outcome_date: None,
        secondary_provenances: Vec::new(),
    };
    proof {
        assert(rec.secondary_provenances.deep_view() =~= Seq::empty());
    }
    rec
}

/// Normalizes one animal, with a fresh identifier and the current instant. Every
/// animal can be normalized.
pub fn normalize_rg_record(
    animal: &RgAnimal,
    species: Species,
    included: &Vec<RgIncludedItem>,
) -> (res: Result<PetRecord, ConnectorError>)
    ensures
        exists|id: u128, now: Moment|
            time::clock_shows(now) && outcome::of(res) == Ok::<PetRecordView, ConnectorErrorView>(
                #[trigger] rg_record(
                    animal.deep_view(),
                    species,
                    included.deep_view(),
                    id,
                    now,
                ),
            ),
{
    let stamp = Stamp::fresh();
    Ok(normalize_rg_record_at(animal, species, included, &stamp))
}

// ---------------------------------------------------------------------------
// Polling
// ---------------------------------------------------------------------------

/// The identifiers seen after a page.
pub open spec fn seen_after(items: Seq<RgAnimalView>, seen: Seq<Seq<char>>) -> Seq<Seq<char>>
    decreases items.len(),
{
    if items.len() == 0 {
        seen
    } else {
        let before = seen_after(items.drop_last(), seen);
        if before.contains(items.last().id) {
            before
        } else {
            before.push(items.last().id)
        }
    }
}

/// The records of a page: one for each animal that was not seen before, in
/// order.
pub open spec fn new_records(
    items: Seq<RgAnimalView>,
    species: Species,
    included: Seq<RgIncludedView>,
    stamps: Seq<Stamp>,
    seen: Seq<Seq<char>>,
) -> Seq<PetRecordView>
    decreases items.len(),
{
    if items.len() == 0 {
        Seq::empty()
    } else {
        let before = new_records(items.drop_last(), species, included, stamps, seen);
        let stamp = stamps[items.len() - 1];
        if seen_after(items.drop_last(), seen).contains(items.last().id) {
            before
        } else {
            before.push(rg_record(items.last(), species, included, stamp.id, stamp.now@))
        }
    }
}

/// Where records of this source come from.
pub open spec fn rg_provenance(now: Moment) -> ProvenanceView {
    ProvenanceView {
        source: SourceIdView { name: "rescuegroups"@, tos_class: TosClass::Api },
        fetched_at: now,
        source_url: Some("https://api.rescuegroups.org/v5"@),
        source_etag: None,
    }
}

/// Connector for RescueGroups.org JSON:API v5.
pub struct RescueGroupsConnector {
    /// Key and address.
    pub config: RescueGroupsConfig,
}

impl RescueGroupsConnector {
    /// A connector with this key and address.
    pub fn new(config: RescueGroupsConfig) -> (res: Self)
        ensures
            res.config == config,
    {
        RescueGroupsConnector { config }
    }

    /// Where records come from that were fetched at `now`.
    pub fn provenance_at(&self, now: Timestamp) -> (res: Provenance)
        ensures
            res.deep_view() == rg_provenance(now@),
    {
        Provenance {
            source: SourceId::new("rescuegroups", TosClass::Api),
            fetched_at: now,
            source_url: Some("https://api.rescuegroups.org/v5".to_owned()),
            source_etag: None,
        }
    }

    /// Where records come from that are fetched now.
    pub fn provenance(&self) -> (res: Provenance)
        ensures
            res.deep_view() == rg_provenance(res.fetched_at@),
            time::clock_shows(res.fetched_at@),
    {
        self.provenance_at(time::now())
    }

    /// How often to poll: the terms ask for a refresh at least weekly; every six
    /// hours.
    pub fn cadence_hint(&self) -> (res: std::time::Duration)
        ensures
            span::nanos_of(res) == 6 * 3600 * 1_000_000_000,
    {
        std::time::Duration::from_secs(6 * 3600)
    }

    /// The search for one numbered page of one species.
    pub fn page_request(&self, species: &str, page: u64) -> (res: Result<
        RgRequest,
        ConnectorError,
    >)
        ensures
            request_view(res) == request_to(
                page_url(self.config.base_url@, species@, page as nat),
                None,
            ),
    {
        build_request_to(&build_page_url(&self.config.base_url, species, page), None)
    }

    /// Begins a poll with the first species.
    pub fn start_poll(&self, since: &Option<Cursor>) -> (res: RescueGroupsPoll)
        ensures
            res.wf(),
            res.since.deep_view() == Cursor::instant(*since),
            res.species == 0,
            res.offset == 0,
            res.records@.len() == 0,
            !res.is_done(),
    {
        RescueGroupsPoll {
            since: Cursor::since(since),
            species: 0,
            offset: 0,
            seen_ids: Vec::new(),
            records: Vec::new(),
        }
    }
}

/// The records of one page, read on its own.
#[derive(Debug)]
pub struct NormalizedPage {
    /// One record for each animal.
    pub records: Vec<PetRecord>,
    /// How many animals match on all pages.
    pub total: u64,
}

/// Normalizes one page of one species on its own; an animal that stands on it
/// twice is taken once.
pub fn normalize_page(page: &RgPage, species: &str, stamps: &Vec<Stamp>) -> (res: NormalizedPage)
    requires
        stamps.len() == page.data.len(),
    ensures
        res.records.deep_view() == new_records(
            page.data.deep_view(),
            species_of_query(species@),
            page.included.deep_view(),
            stamps@,
            Seq::empty(),
        ),
        res.total == page.total,
{
    let at: usize = if text::same(species, "cats") {
        1
    } else {
        0
    };
    let mut poll = RescueGroupsPoll {
        since: None,
        species: at,
        offset: 0,
        seen_ids: Vec::new(),
        records: Vec::new(),
    };
    proof {
        reveal_strlit("dogs");
        reveal_strlit("cats");
        assert("dogs"@[0] != "cats"@[0]);
        assert(species_of_query(SPECIES@[at as int]@) == species_of_query(species@));
        assert(poll.seen_ids.deep_view() =~= Seq::empty());
        assert(poll.records.deep_view() =~= Seq::empty());
    }
    poll.absorb(page, stamps);
    proof {
        assert(Seq::<PetRecordView>::empty() + poll.records.deep_view()
            =~= poll.records.deep_view());
    }
    NormalizedPage { records: poll.records, total: page.total }
}

/// A poll under way: what is still to be fetched and what has been gathered.
pub struct RescueGroupsPoll {
    /// Only animals updated at this instant or later are asked for.
    pub since: Option<Timestamp>,
    /// The place in [`SPECIES`] of the species that is being read; past the end
    /// when all have been.
    pub species: usize,
    /// Where the next page begins.
    pub offset: u64,
    /// The identifiers of the animals so far.
    pub seen_ids: Vec<String>,
    /// The records so far.
    pub records: Vec<PetRecord>,
}

impl RescueGroupsPoll {
    /// There is one record for each identifier that was seen, in the same
    /// order, and no identifier was seen twice.
    pub open spec fn wf(&self) -> bool {
        &&& self.species <= SPECIES@.len()
        &&& self.records.len() == self.seen_ids.len()
        &&& self.seen_ids.deep_view().no_duplicates()
        &&& forall|i: int|
            0 <= i < self.records.len() ==> (#[trigger] self.records.deep_view()[i]).source_animal_id
                == Some(self.seen_ids.deep_view()[i])
    }

    /// Whether every species has been read.
    pub open spec fn is_done(&self) -> bool {
        self.species >= SPECIES@.len()
    }

    /// Whether every species has been read.
    pub fn done(&self) -> (res: bool)
        ensures
            res == self.is_done(),
    {
        self.species >= SPECIES.len()
    }

    /// The search for the next page.
    pub fn next_request(&self, config: &RescueGroupsConfig) -> (res: Result<
        RgRequest,
        ConnectorError,
    >)
        requires
            !self.is_done(),
        ensures
            request_view(res) == request_of(
                config.base_url@,
                SPECIES@[self.species as int]@,
                self.offset as nat,
                self.since.deep_view(),
            ),
    {
        build_request(&config.base_url, SPECIES[self.species], self.offset, self.since.as_ref())
    }

    /// Takes in one page: a record is kept for each animal that was not seen
    /// before. A short page, or one that reaches the total, is the last of its
    /// species, and the next species follows from its beginning. A reply that
    /// says nothing has changed counts as an empty page.
    pub fn absorb(&mut self, page: &RgPage, stamps: &Vec<Stamp>)
        requires
            old(self).wf(),
            !old(self).is_done(),
            stamps.len() == page.data.len(),
            old(self).offset + PAGE_SIZE <= u64::MAX,
        ensures
            final(self).wf(),
            final(self).since == old(self).since,
            final(self).seen_ids.deep_view() == seen_after(
                page.data.deep_view(),
                old(self).seen_ids.deep_view(),
            ),
            final(self).records.deep_view() == old(self).records.deep_view() + new_records(
                page.data.deep_view(),
                species_of_query(SPECIES@[old(self).species as int]@),
                page.included.deep_view(),
                stamps@,
                old(self).seen_ids.deep_view(),
            ),
            ({
                let last = page.data.len() < PAGE_SIZE || old(self).offset + PAGE_SIZE
                    >= page.total;
                &&& last ==> final(self).species == old(self).species + 1 && final(self).offset
                    == 0
                &&& !last ==> final(self).species == old(self).species && final(self).offset
                    == old(self).offset + PAGE_SIZE
            }),
    {
        let species = species_from_query(SPECIES[self.species]);
        let data = &page.data;
        let ghost all = data.deep_view();
        let ghost seen = self.seen_ids.deep_view();
        let ghost before = self.records.deep_view();
        let ghost included = page.included.deep_view();
        let mut i: usize = 0;
        while i < data.len()
            invariant
                i <= data.len(),
                data == page.data,
                stamps.len() == data.len(),
                all == data.deep_view(),
                included == page.included.deep_view(),
                self.wf(),
                self.since == old(self).since,
                self.species == old(self).species,
                self.offset == old(self).offset,
                self.seen_ids.deep_view() =~= seen_after(all.take(i as int), seen),
                self.records.deep_view() =~= before + new_records(
                    all.take(i as int),
                    species,
                    included,
                    stamps@,
                    seen,
                ),
            decreases data.len() - i,
        {
            let item = &data[i];
            proof {
                assert(all.take(i + 1).drop_last() == all.take(i as int));
                assert(all.take(i + 1).last() == item.deep_view());
            }
            let ghost ids = self.seen_ids.deep_view();
            let ghost recs = self.records.deep_view();
            if !contains_id(&self.seen_ids, &item.id) {
                let rec = normalize_rg_record_at(item, species, &page.included, &stamps[i]);
                self.seen_ids.push(item.id.clone());
                self.records.push(rec);
                proof {
                    assert(self.seen_ids.deep_view() =~= ids.push(item.id@));
                    assert(self.records.deep_view() =~= recs.push(rec.deep_view()));
                    assert forall|j: int| 0 <= j < self.records.len() implies (
                    #[trigger] self.records.deep_view()[j]).source_animal_id == Some(
                        self.seen_ids.deep_view()[j],
                    ) by {
                        if j < recs.len() {
                            assert(recs[j].source_animal_id == Some(ids[j]));
                        }
                    }
                }
            }
            i += 1;
        }
        proof {
            assert(all.take(data.len() as int) == all);
        }
        let next = self.offset + PAGE_SIZE;
        if (data.len() as u64) < PAGE_SIZE || next >= page.total {
            self.species = self.species + 1;
            self.offset = 0;
        } else {
            self.offset = next;
        }
    }
}

fn contains_id(ids: &Vec<String>, id: &String) -> (res: bool)
    ensures
        res == ids.deep_view().contains(id@),
{
    let mut i: usize = 0;
    while i < ids.len()
        invariant
            i <= ids.len(),
            forall|j: int| 0 <= j < i ==> (#[trigger] ids@[j])@ != id@,
        decreases ids.len() - i,
    {
        if text::same(&ids[i], id) {
            assert(ids.deep_view()[i as int] == id@);
            return true;
        }
        i += 1;
    }
    proof {
        assert forall|j: int| 0 <= j < ids.len() implies ids.deep_view()[j] != id@ by {
            assert(ids@[j]@ != id@);
        }
    }
    false
}

// ---------------------------------------------------------------------------
// Laws
// ---------------------------------------------------------------------------

/// No two records of a poll are of the same animal.
pub proof fn no_animal_twice(poll: RescueGroupsPoll, i: int, j: int)
    requires
        poll.wf(),
        0 <= i < j < poll.records.len(),
    ensures
        poll.records.deep_view()[i].source_animal_id != poll.records.deep_view()[j].source_animal_id,
{
    assert(poll.records.deep_view()[i].source_animal_id == Some(poll.seen_ids.deep_view()[i]));
    assert(poll.records.deep_view()[j].source_animal_id == Some(poll.seen_ids.deep_view()[j]));
}

/// A page without animals, which a reply that says nothing has changed counts
/// as, adds no record.
pub proof fn an_empty_page_adds_nothing(
    species: Species,
    included: Seq<RgIncludedView>,
    stamps: Seq<Stamp>,
    seen: Seq<Seq<char>>,
)
    ensures
        new_records(Seq::empty(), species, included, stamps, seen).len() == 0,
        seen_after(Seq::empty(), seen) == seen,
{
}

/// The location of an animal is coarse: its coordinates are kept to two decimal
/// places.
pub proof fn locations_are_coarse(animal: RgAnimalView, included: Seq<RgIncludedView>)
    ensures
        rg_location(animal, included) matches Some(loc) ==> loc.precision == LOCATION_PRECISION
            == 2,
{
    lemma_first_is_coarse(animal.locations, included);
    lemma_first_is_coarse(animal.orgs, included);
}

proof fn lemma_first_is_coarse(refs: Seq<RgRefView>, included: Seq<RgIncludedView>)
    ensures
        first_location(refs, included) matches Some(loc) ==> loc.precision == LOCATION_PRECISION,
    decreases refs.len(),
{
    if refs.len() > 0 {
        lemma_first_is_coarse(refs.drop_last(), included);
    }
}

/// A delta poll asks by the field name that the API knows, never by the bare
/// one.
pub proof fn filter_uses_the_known_field(m: Moment)
    ensures
        json::cell_of(since_filter(m), "fieldName"@) == Some("animals.updatedDate"@),
        json::cell_of(since_filter(m), "fieldName"@) != Some("updatedDate"@),
        json::cell_of(since_filter(m), "operation"@) == Some("greaterthanorequal"@),
        json::cell_of(since_filter(m), "criteria"@) == Some(time::rfc3339_seconds(m)),
{
    reveal_strlit("fieldName");
    reveal_strlit("operation");
    reveal_strlit("criteria");
    reveal_strlit("animals.updatedDate");
    reveal_strlit("updatedDate");
    assert("animals.updatedDate"@.len() != "updatedDate"@.len());
    assert("fieldName"@[0] == 'f');
    assert("operation"@[0] == 'o');
    assert("criteria"@[0] == 'c');
}

/// A delta poll asks with one filter, at the place where the API looks for it, and
/// a full poll with none.
pub proof fn only_delta_polls_are_filtered(cursor: Moment)
    ensures
        ({
            let data = json::member(search_document(Some(cursor)), "data"@);
            &&& data matches Some(d) && json::member(d, "filters"@) == Some(
                Json::List(seq![since_filter(cursor)]),
            )
        }),
        ({
            let data = json::member(search_document(None), "data"@);
            &&& data matches Some(d) && json::member(d, "filters"@) == Some(
                Json::List(Seq::empty()),
            )
        }),
{
}

/// A page of a species is asked for by its size, two hundred and fifty animals, and
/// by where it begins.
pub proof fn pages_are_asked_for_by_place(base_url: Seq<char>, species: Seq<char>, offset: nat)
    ensures
        exists|o: Seq<char>|
            {
                &&& #[trigger] query::is_count(o)
                &&& query::count_of(o) == offset
                &&& search_url(base_url, species, offset) == base_url
                    + "/public/animals/search/available/"@ + species + "?limit="@ + "250"@
                    + "&offset="@ + o
            },
        PAGE_SIZE == 250,
{
    reveal_strlit("250");
    reveal_with_fuel(text::decimal, 4);
    assert(text::decimal(250) =~= "250"@);
    query::decimals_read_back(offset);
    let o = text::decimal(offset);
    assert(query::is_count(o));
}

/// Dogs are asked for first and then cats, and a record is of the species that was
/// asked for.
pub proof fn species_are_those_asked_for()
    ensures
        SPECIES@.len() == 2,
        SPECIES@[0]@ == "dogs"@,
        SPECIES@[1]@ == "cats"@,
        species_of_query("dogs"@) == Species::Dog,
        species_of_query("cats"@) == Species::Cat,
{
    reveal_strlit("dogs");
    reveal_strlit("cats");
    assert("dogs"@[0] != "cats"@[0]);
}

/// The sexes that words name, in any case; another word leaves it unknown.
pub proof fn sexes_go_by_their_words(s: Seq<char>)
    ensures
        ({
            let word = text::lowercase(s);
            &&& sex_of(s) == Sex::Male <==> word == "male"@ || word == "m"@
            &&& sex_of(s) == Sex::Female <==> word == "female"@ || word == "f"@
            &&& sex_of(s) == Sex::NeuteredMale <==> word == "neutered male"@ || word == "neutered"@
            &&& sex_of(s) == Sex::SpayedFemale <==> word == "spayed female"@ || word == "spayed"@
        }),
{
    reveal_strlit("male");
    reveal_strlit("m");
    reveal_strlit("female");
    reveal_strlit("f");
    reveal_strlit("neutered male");
    reveal_strlit("neutered");
    reveal_strlit("spayed female");
    reveal_strlit("spayed");
    assert("male"@[0] == 'm' && "m"@[0] == 'm' && "female"@[0] == 'f' && "f"@[0] == 'f'
        && "neutered male"@[0] == 'n' && "neutered"@[0] == 'n' && "spayed female"@[0] == 's'
        && "spayed"@[0] == 's');
}

/// The age that a text speaks of, the youngest that it speaks of; an adult where it
/// speaks of none.
pub proof fn ages_are_spoken_of(s: Seq<char>)
    ensures
        ({
            let word = text::lowercase(s);
            let baby = text::has(word, "baby"@) || text::has(word, "puppy"@) || text::has(
                word,
                "kitten"@,
            );
            let young = text::has(word, "young"@) || text::has(word, "juvenile"@);
            let adult = text::has(word, "adult"@);
            let senior = text::has(word, "senior"@) || text::has(word, "older"@);
            &&& age_of(s) == AgeBucket::Baby <==> baby
            &&& age_of(s) == AgeBucket::Young <==> !baby && young
            &&& age_of(s) == AgeBucket::Senior <==> !baby && !young && !adult && senior
            &&& age_of(s) == AgeBucket::Adult <==> !baby && !young && (adult || !senior)
        }),
{
}

/// The size that a text speaks of, the largest that it speaks of; small where it
/// speaks of none.
pub proof fn sizes_are_spoken_of(s: Seq<char>)
    ensures
        ({
            let word = text::lowercase(s);
            let extra = text::has(word, "extra large"@) || text::has(word, "x-large"@) || text::has(
                word,
                "xlarge"@,
            );
            let large = text::has(word, "large"@);
            let medium = text::has(word, "medium"@);
            &&& size_of(s) == Size::ExtraLarge <==> extra
            &&& size_of(s) == Size::Large <==> !extra && large
            &&& size_of(s) == Size::Medium <==> !extra && !large && medium
            &&& size_of(s) == Size::Small <==> !extra && !large && !medium
        }),
{
}

/// A text that denies a chip says that a scan found none; one that only affirms it
/// says that a scan found one; any other says nothing.
pub proof fn chips_are_denied_before_affirmed(s: Seq<char>)
    ensures
        ({
            let word = text::lowercase(s);
            let yes = text::has(word, "chip"@) || text::has(word, "scanned"@) || text::has(
                word,
                "yes"@,
            );
            &&& rg_chip_status(s) == ChipStatusView::ScanNoChip <==> text::has(word, "no"@)
            &&& rg_chip_status(s) == (ChipStatusView::Scanned { chip: None }) <==> !text::has(
                word,
                "no"@,
            ) && yes
            &&& rg_chip_status(s) == ChipStatusView::Unknown <==> !text::has(word, "no"@) && !yes
        }),
{
    reveal_strlit("no");
    reveal_strlit("not");
    reveal_strlit("none");
    let word = text::lowercase(s);
    assert("not"@.subrange(0, 2) =~= "no"@);
    assert("none"@.subrange(0, 2) =~= "no"@);
    assert(text::occurs_at("not"@, "no"@, 0));
    assert(text::occurs_at("none"@, "no"@, 0));
    text::parts_of_parts(word, "not"@, "no"@);
    text::parts_of_parts(word, "none"@, "no"@);
}

/// A reference stands for the last attached resource of its type and identifier.
pub proof fn references_find_the_last_resource(
    included: Seq<RgIncludedView>,
    r: RgRefView,
    k: int,
)
    requires
        0 <= k < included.len(),
        included[k].kind == r.kind && included[k].id == r.id,
        forall|j: int|
            k < j < included.len() ==> (#[trigger] included[j]).kind != r.kind || included[j].id
                != r.id,
    ensures
        lookup(included, r) == Some(included[k].attributes),
    decreases included.len(),
{
    if k < included.len() - 1 {
        let last = included[included.len() - 1];
        assert(last.kind != r.kind || last.id != r.id);
        let front = included.drop_last();
        assert forall|j: int| k < j < front.len() implies (#[trigger] front[j]).kind != r.kind
            || front[j].id != r.id by {
            assert(included[j] == front[j]);
        }
        references_find_the_last_resource(front, r, k);
    }
}

/// A reference to no attached resource stands for nothing.
pub proof fn references_to_nothing(included: Seq<RgIncludedView>, r: RgRefView)
    requires
        forall|j: int|
            0 <= j < included.len() ==> (#[trigger] included[j]).kind != r.kind || included[j].id
                != r.id,
    ensures
        lookup(included, r) is None,
    decreases included.len(),
{
    if included.len() > 0 {
        let last = included[included.len() - 1];
        assert(last.kind != r.kind || last.id != r.id);
        let front = included.drop_last();
        assert forall|j: int| 0 <= j < front.len() implies (#[trigger] front[j]).kind != r.kind
            || front[j].id != r.id by {
            assert(included[j] == front[j]);
        }
        references_to_nothing(front, r);
    }
}

/// A picture is shown by the address of its large variant, or else of the original,
/// or else of the small one, and the one that is first in order is the main photo;
/// a color is called by its name; and each more reference adds what it stands for,
/// if anything, behind the others.
pub proof fn pictures_and_colors_are_resolved(
    refs: Seq<RgRefView>,
    r: RgRefView,
    included: Seq<RgIncludedView>,
    attrs: Json,
)
    ensures
        ({
            let shown = match json::member(attrs, "large"@) {
                Some(v) => Some(v),
                None => match json::member(attrs, "original"@) {
                    Some(v) => Some(v),
                    None => json::member(attrs, "small"@),
                },
            };
            let address = match shown {
                Some(v) => json::cell_of(v, "url"@),
                None => None,
            };
            &&& photo_of(attrs) is Some <==> address is Some
            &&& photo_of(attrs) matches Some(photo) ==> Some(photo.url) == address && photo.attribution
                is None && (photo.is_primary <==> json::member(attrs, "order"@) == Some(
                Json::Int(1),
            ))
        }),
        photos_of(refs.push(r), included) == (match lookup(included, r) {
            Some(a) => match photo_of(a) {
                Some(photo) => photos_of(refs, included).push(photo),
                None => photos_of(refs, included),
            },
            None => photos_of(refs, included),
        }),
        colors_of(refs.push(r), included) == (match lookup(included, r) {
            Some(a) => match json::cell_of(a, "name"@) {
                Some(name) => colors_of(refs, included).push(name),
                None => colors_of(refs, included),
            },
            None => colors_of(refs, included),
        }),
        photos_of(Seq::empty(), included).len() == 0,
        colors_of(Seq::empty(), included).len() == 0,
{
    assert(refs.push(r).drop_last() =~= refs);
}

/// A place is where its resource says: in its city and state, at its latitude and
/// longitude to two decimal places. The first of an animal's locations that names a
/// city counts, or else the first of its organizations that does.
pub proof fn animals_are_where_their_locations_say(
    animal: RgAnimalView,
    refs: Seq<RgRefView>,
    r: RgRefView,
    included: Seq<RgIncludedView>,
    attrs: Json,
)
    ensures
        location_of(attrs) is Some <==> json::cell_of(attrs, "city"@) is Some,
        location_of(attrs) matches Some(loc) ==> {
            &&& json::cell_of(attrs, "city"@) == Some(loc.city_county)
            &&& loc.state == json::cell_of(attrs, "state"@)
            &&& loc.precision == 2
            &&& json::member(attrs, "lat"@) matches Some(v) ==> (json::number_text_of(v) matches Some(t)
                ==> loc.lat == decimal::in_units(t, 2)) && (json::number_text_of(v) is None ==> loc.lat
                is None)
            &&& json::member(attrs, "lon"@) matches Some(v) ==> (json::number_text_of(v) matches Some(t)
                ==> loc.lon == decimal::in_units(t, 2)) && (json::number_text_of(v) is None ==> loc.lon
                is None)
            &&& json::member(attrs, "lat"@) is None ==> loc.lat is None
            &&& json::member(attrs, "lon"@) is None ==> loc.lon is None
        },
        first_location(refs.push(r), included) == (match first_location(refs, included) {
            Some(loc) => Some(loc),
            None => match lookup(included, r) {
                Some(a) => location_of(a),
                None => None,
            },
        }),
        first_location(Seq::empty(), included) is None,
        rg_location(animal, included) == (match first_location(animal.locations, included) {
            Some(loc) => Some(loc),
            None => first_location(animal.orgs, included),
        }),
{
    assert(refs.push(r).drop_last() =~= refs);
}

/// An animal becomes a record that can be adopted, each part from the attribute
/// that tells it. It was last seen when the listing was updated, as far as that is
/// told and readable, and else now; first seen when the listing was made, as far as
/// that is told and readable, and else when it was last seen. It is confirmed now.
pub proof fn animals_become_records(
    animal: RgAnimalView,
    species: Species,
    included: Seq<RgIncludedView>,
    id: u128,
    now: Moment,
)
    ensures
        ({
            let rec = rg_record(animal, species, included, id, now);
            let attr = animal.attributes;
            &&& rec.canonical_id == id
            &&& rec.source.name == "rescuegroups"@
            &&& rec.source.tos_class == TosClass::Api
            &&& rec.source_animal_id == Some(animal.id)
            &&& rec.species == species
            &&& attr.primary_breed is Some ==> rec.breed_primary == attr.primary_breed
            &&& attr.primary_breed is None ==> rec.breed_primary == attr.breed_string
            &&& rec.breed_secondary == attr.secondary_breed
            &&& attr.sex matches Some(s) ==> rec.sex == Some(sex_of(s))
            &&& attr.sex is None ==> rec.sex is None
            &&& attr.age_string matches Some(s) ==> rec.age_bucket == Some(age_of(s))
            &&& attr.age_string is None ==> rec.age_bucket is None
            &&& attr.size_group matches Some(s) ==> rec.size == Some(size_of(s))
            &&& attr.size_group is None ==> rec.size is None
            &&& rec.colors == colors_of(animal.colors, included)
            &&& rec.photos == photos_of(animal.pictures, included)
            &&& rec.location == rg_location(animal, included)
            &&& rec.markings_text == attr.description
            &&& rec.found_location_text == attr.found_location
            &&& rec.intake_type == IntakeType::Adoptable
            &&& rec.availability == Availability::Adoptable
            &&& attr.chip_status matches Some(s) ==> rec.chip_status == rg_chip_status(s)
            &&& attr.chip_status is None ==> rec.chip_status == ChipStatusView::Unknown
            &&& (attr.updated_date matches Some(s) && time::rfc3339_instant(s) is Ok)
                ==> rec.last_seen == time::rfc3339_instant(attr.updated_date->0)->Ok_0
            &&& !(attr.updated_date matches Some(s) && time::rfc3339_instant(s) is Ok)
                ==> rec.last_seen == now
            &&& (attr.created_date matches Some(s) && time::rfc3339_instant(s) is Ok)
                ==> rec.first_seen == time::rfc3339_instant(attr.created_date->0)->Ok_0
            &&& !(attr.created_date matches Some(s) && time::rfc3339_instant(s) is Ok)
                ==> rec.first_seen == rec.last_seen
            &&& rec.last_confirmed == Some(now)
            &&& rec.intake_date is None
            &&& rec.outcome_date is None
            &&& rec.secondary_provenances.len() == 0
        }),
{
}

/// One more animal on a page is one more record where it was not seen before, on
/// this page or an earlier one, and none where it was.
pub proof fn one_more_animal_is_one_more_record(
    items: Seq<RgAnimalView>,
    item: RgAnimalView,
    species: Species,
    included: Seq<RgIncludedView>,
    stamps: Seq<Stamp>,
    seen: Seq<Seq<char>>,
)
    ensures
        ({
            let stamp = stamps[items.len() as int];
            let before = new_records(items, species, included, stamps, seen);
            let known = seen.contains(item.id) || exists|i: int|
                0 <= i < items.len() && (#[trigger] items[i]).id == item.id;
            new_records(items.push(item), species, included, stamps, seen) == (if known {
                before
            } else {
                before.push(rg_record(item, species, included, stamp.id, stamp.now@))
            })
        }),
{
    assert(items.push(item).drop_last() =~= items);
    lemma_seen_after(items, seen, item.id);
}

proof fn lemma_seen_after(items: Seq<RgAnimalView>, seen: Seq<Seq<char>>, id: Seq<char>)
    ensures
        seen_after(items, seen).contains(id) <==> seen.contains(id) || exists|i: int|
            0 <= i < items.len() && (#[trigger] items[i]).id == id,
    decreases items.len(),
{
    if items.len() > 0 {
        let front = items.drop_last();
        let before = seen_after(front, seen);
        let last = items.last().id;
        lemma_seen_after(front, seen, id);
        assert forall|i: int| 0 <= i < front.len() implies #[trigger] items[i] == front[i] by {}
        assert(items[items.len() - 1] == items.last());
        if !before.contains(last) {
            let after = before.push(last);
            assert(after[before.len() as int] == last);
            if before.contains(id) {
                let j = choose|j: int| 0 <= j < before.len() && before[j] == id;
                assert(after[j] == id);
            }
            if after.contains(id) && id != last {
                let j = choose|j: int| 0 <= j < after.len() && after[j] == id;
                assert(before[j] == id);
            }
        }
        if seen.contains(id) || exists|i: int| 0 <= i < items.len() && (#[trigger] items[i]).id == id {
            if !seen.contains(id) && id != last {
                let i = choose|i: int| 0 <= i < items.len() && (#[trigger] items[i]).id == id;
                assert(front[i].id == id);
            }
        }
    }
}

} // verus!
