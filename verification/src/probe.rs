//! Classifies a Socrata or OpenDataSoft dataset as a usable stray-bearing
//! animal-intake feed, or gives an honest red verdict.

use serde_json::Value;
use url::Url;
use vstd::prelude::*;

use crate::cli;
use crate::cli::InvocationView;
use crate::connectors::opendatasoft;
use crate::connectors::socrata::{ColumnMapView, SocrataColumnMap};
use crate::discover;
use crate::discover::CandidateFamily;
use crate::error::ConnectorError;
use crate::json;
use crate::json::Json;
use crate::outcome;
use crate::stray;
use crate::text;
use crate::web;

pub use crate::stray::is_stray_value;

verus! {

/// Errors that can occur during a probe.
#[derive(Debug, Clone, PartialEq, Eq)]
pub enum ProbeError {
    /// Dataset not found (404).
    NotFound {
        /// The URL that returned 404.
        url: String,
    },
    /// Network or HTTP error.
    Http(String),
    /// JSON parse error.
    Json(String),
}

/// The model of a [`ProbeError`].
pub enum ProbeErrorView {
    /// Dataset not found.
    NotFound { url: Seq<char> },
    /// Network or HTTP error.
    Http(Seq<char>),
    /// JSON parse error.
    Json(Seq<char>),
}

impl DeepView for ProbeError {
    type V = ProbeErrorView;

    open spec fn deep_view(&self) -> ProbeErrorView {
        match self {
            ProbeError::NotFound { url } => ProbeErrorView::NotFound { url: url@ },
            ProbeError::Http(e) => ProbeErrorView::Http(e@),
            ProbeError::Json(e) => ProbeErrorView::Json(e@),
        }
    }
}

impl ProbeErrorView {
    /// The error in words.
    pub open spec fn message(self) -> Seq<char> {
        match self {
            ProbeErrorView::NotFound { url } => "dataset not found: "@ + url,
            ProbeErrorView::Http(e) => "HTTP error: "@ + e,
            ProbeErrorView::Json(e) => "JSON parse error: "@ + e,
        }
    }
}

impl ProbeError {
    /// The error in words.
    pub fn message(&self) -> (res: String)
        ensures
            res@ == self.deep_view().message(),
    {
        match self {
            ProbeError::NotFound { url } => "dataset not found: ".to_owned().concat(url),
            ProbeError::Http(e) => "HTTP error: ".to_owned().concat(e),
            ProbeError::Json(e) => "JSON parse error: ".to_owned().concat(e),
        }
    }
}

// ---------------------------------------------------------------------------
// Columns
// ---------------------------------------------------------------------------

/// Confidence in a column mapping.
#[derive(Debug, Clone, Copy, PartialEq, Eq, Structural)]
pub enum Confidence {
    /// A value was observed that bears the mapping out: for the intake type a
    /// stray value, for any other slot any value.
    Confirmed,
    /// Column name matched a heuristic but no confirming value was observed.
    Guessed,
}

impl Confidence {
    /// The confidence in a word.
    pub open spec fn word(self) -> Seq<char> {
        match self {
            Confidence::Confirmed => "confirmed"@,
            Confidence::Guessed => "guessed"@,
        }
    }

    /// The confidence in a word.
    pub fn as_str(&self) -> (res: &'static str)
        ensures
            res@ == self.word(),
    {
        match self {
            Confidence::Confirmed => "confirmed",
            Confidence::Guessed => "guessed",
        }
    }
}

/// A candidate column mapping with confidence annotation.
#[derive(Debug, Clone, PartialEq, Eq)]
pub struct MappedColumn {
    /// The actual source column name.
    pub source_col: String,
    /// The slot this maps to (e.g. "animal_id").
    pub slot: &'static str,
    /// Confidence level.
    pub confidence: Confidence,
}

/// The model of a [`MappedColumn`].
pub struct MappedColumnView {
    /// The actual source column name.
    pub source_col: Seq<char>,
    /// The slot this maps to.
    pub slot: Seq<char>,
    /// Confidence level.
    pub confidence: Confidence,
}

impl DeepView for MappedColumn {
    type V = MappedColumnView;

    open spec fn deep_view(&self) -> MappedColumnView {
        MappedColumnView {
            source_col: self.source_col@,
            slot: self.slot@,
            confidence: self.confidence,
        }
    }
}

/// A column entry from SODA column metadata.
#[derive(Debug, Clone, PartialEq, Eq)]
pub struct SodaColumn {
    /// The name by which the API knows the column.
    pub field_name: String,
    /// The name that people read.
    pub name: String,
}

/// The model of a [`SodaColumn`].
pub struct SodaColumnView {
    /// The name by which the API knows the column.
    pub field_name: Seq<char>,
    /// The name that people read.
    pub name: Seq<char>,
}

impl DeepView for SodaColumn {
    type V = SodaColumnView;

    open spec fn deep_view(&self) -> SodaColumnView {
        SodaColumnView { field_name: self.field_name@, name: self.name@ }
    }
}

/// The slots of a column map, in the order in which they choose columns.
pub const SLOTS: [&'static str; 11] = [
    "animal_id",
    "animal_type",
    "intake_type",
    "intake_date",
    "found_location",
    "chip_status",
    "kennel_status",
    "breed",
    "name",
    "color",
    "outcome_date",
];

/// Words that columns for a slot are named by, most specific first.
pub open spec fn keywords_of(slot: Seq<char>) -> Seq<Seq<char>> {
    if slot == "animal_id"@ {
        seq!["animal_id"@, "animalid"@, "animal_number"@, "id"@]
    } else if slot == "animal_type"@ {
        seq!["animal_type"@, "animaltype"@, "species"@, "type"@]
    } else if slot == "intake_type"@ {
        seq![
            "intake_type"@,
            "intaketype"@,
            "intake_subtype"@,
            "intake_condition"@,
            "entry_reason"@,
        ]
    } else if slot == "intake_date"@ {
        seq![
            "intake_date"@,
            "intakedate"@,
            "datetime"@,
            "intake_datetime"@,
            "date_intake"@,
            "entry_date"@,
        ]
    } else if slot == "found_location"@ {
        seq![
            "found_location"@,
            "foundlocation"@,
            "location_found"@,
            "found_address"@,
            "where_found"@,
        ]
    } else if slot == "chip_status"@ {
        seq!["chip_status"@, "chipstatus"@, "microchip"@, "chip"@]
    } else if slot == "kennel_status"@ {
        seq!["kennel_status"@, "kennelstatus"@, "status"@, "custody_status"@]
    } else if slot == "breed"@ {
        seq!["breed"@, "primary_breed"@, "breed_primary"@]
    } else if slot == "name"@ {
        seq!["name"@, "animal_name"@, "pet_name"@]
    } else if slot == "color"@ {
        seq!["color"@, "colour"@, "primary_color"@]
    } else if slot == "outcome_date"@ {
        seq!["outcome_date"@, "outcomedate"@, "outcome_datetime"@, "date_outcome"@]
    } else {
        Seq::empty()
    }
}

/// Words that columns for a slot are named by, most specific first.
pub fn slot_keywords(slot: &str) -> (res: Vec<&'static str>)
    ensures
        res.deep_view() == keywords_of(slot@),
{
    let res: Vec<&'static str> = if text::same(slot, "animal_id") {
        vec!["animal_id", "animalid", "animal_number", "id"]
    } else if text::same(slot, "animal_type") {
        vec!["animal_type", "animaltype", "species", "type"]
    } else if text::same(slot, "intake_type") {
        vec!["intake_type", "intaketype", "intake_subtype", "intake_condition", "entry_reason"]
    } else if text::same(slot, "intake_date") {
        vec![
            "intake_date",
            "intakedate",
            "datetime",
            "intake_datetime",
            "date_intake",
            "entry_date",
        ]
    } else if text::same(slot, "found_location") {
        vec!["found_location", "foundlocation", "location_found", "found_address", "where_found"]
    } else if text::same(slot, "chip_status") {
        vec!["chip_status", "chipstatus", "microchip", "chip"]
    } else if text::same(slot, "kennel_status") {
        vec!["kennel_status", "kennelstatus", "status", "custody_status"]
    } else if text::same(slot, "breed") {
        vec!["breed", "primary_breed", "breed_primary"]
    } else if text::same(slot, "name") {
        vec!["name", "animal_name", "pet_name"]
    } else if text::same(slot, "color") {
        vec!["color", "colour", "primary_color"]
    } else if text::same(slot, "outcome_date") {
        vec!["outcome_date", "outcomedate", "outcome_datetime", "date_outcome"]
    } else {
        Vec::new()
    };
    assert(res.deep_view() =~= keywords_of(slot@));
    res
}

/// The column that a metadata entry describes; nothing where it has no field
/// name or is one of the system's own.
pub open spec fn soda_column(entry: Json) -> Option<SodaColumnView> {
    let field = if json::member(entry, "fieldName"@) is Some {
        json::cell_of(entry, "fieldName"@)
    } else {
        json::cell_of(entry, "field_name"@)
    };
    match field {
        None => None,
        Some(field_name) => if ":"@.is_prefix_of(field_name) {
            None
        } else {
            Some(
                SodaColumnView {
                    field_name,
                    name: match json::cell_of(entry, "name"@) {
                        Some(name) => name,
                        None => field_name,
                    },
                },
            )
        },
    }
}

/// The columns that a row of metadata entries describes, in order.
pub open spec fn soda_columns(entries: Seq<Json>) -> Seq<SodaColumnView>
    decreases entries.len(),
{
    if entries.len() == 0 {
        Seq::empty()
    } else {
        let before = soda_columns(entries.drop_last());
        match soda_column(entries.last()) {
            Some(col) => before.push(col),
            None => before,
        }
    }
}

/// The columns of a metadata document; none where it is no array.
pub open spec fn columns_of(metadata: Json) -> Seq<SodaColumnView> {
    match metadata {
        Json::List(entries) => soda_columns(entries),
        _ => Seq::empty(),
    }
}

fn read_column(entry: &Value) -> (res: Option<SodaColumn>)
    ensures
        res.deep_view() == soda_column(json::contents(*entry)),
{
    let field = match json::get(entry, "fieldName") {
        Some(v) => v.as_str(),
        None => json::cell(entry, "field_name"),
    };
    let field_name = match field {
        Some(s) => s.to_owned(),
        None => return None,
    };
    if text::starts_with(&field_name, ":") {
        return None;
    }
    let name = match json::cell(entry, "name") {
        Some(s) => s.to_owned(),
        None => field_name.clone(),
    };
    Some(SodaColumn { field_name, name })
}

/// Reads the columns out of a metadata document.
pub fn parse_soda_columns(metadata: &Value) -> (res: Vec<SodaColumn>)
    ensures
        res.deep_view() == columns_of(json::contents(*metadata)),
{
    let mut out: Vec<SodaColumn> = Vec::new();
    let entries = match metadata.as_array() {
        Some(a) => a,
        None => {
            assert(out.deep_view() =~= Seq::empty());
            return out;
        },
    };
    let ghost all = json::all_contents(entries@);
    let mut i: usize = 0;
    while i < entries.len()
        invariant
            i <= entries.len(),
            all == json::all_contents(entries@),
            out.deep_view() =~= soda_columns(all.take(i as int)),
        decreases entries.len() - i,
    {
        proof {
            assert(all.take(i + 1).drop_last() == all.take(i as int));
            assert(all.take(i + 1).last() == json::contents(entries@[i as int]));
        }
        if let Some(col) = read_column(&entries[i]) {
            let ghost sofar = out.deep_view();
            out.push(col);
            assert(out.deep_view() =~= sofar.push(col.deep_view()));
        }
        i += 1;
    }
    proof {
        assert(all.take(entries.len() as int) == all);
    }
    out
}

// ---------------------------------------------------------------------------
// Matching columns to slots
// ---------------------------------------------------------------------------

/// Whether a column that is not taken fits a keyword: exactly by its field
/// name, or loosely by a part of either name.
pub open spec fn fits(
    col: SodaColumnView,
    claimed: Seq<Seq<char>>,
    keyword: Seq<char>,
    loose: bool,
) -> bool {
    let field = text::lowercase(col.field_name);
    &&& !claimed.contains(col.field_name)
    &&& if loose {
        text::has(field, keyword) || text::has(text::lowercase(col.name), keyword)
    } else {
        field == keyword
    }
}

/// The place of the first column that fits a keyword.
pub open spec fn first_fit(
    columns: Seq<SodaColumnView>,
    claimed: Seq<Seq<char>>,
    keyword: Seq<char>,
    loose: bool,
) -> Option<int>
    decreases columns.len(),
{
    if columns.len() == 0 {
        None
    } else {
        let before = first_fit(columns.drop_last(), claimed, keyword, loose);
        if before is Some {
            before
        } else if fits(columns.last(), claimed, keyword, loose) {
            Some(columns.len() - 1)
        } else {
            None
        }
    }
}

/// The place of the column that fits the first keyword which any column fits.
pub open spec fn keyword_fit(
    columns: Seq<SodaColumnView>,
    claimed: Seq<Seq<char>>,
    keywords: Seq<Seq<char>>,
    loose: bool,
) -> Option<int>
    decreases keywords.len(),
{
    if keywords.len() == 0 {
        None
    } else {
        let before = keyword_fit(columns, claimed, keywords.drop_last(), loose);
        if before is Some {
            before
        } else {
            first_fit(columns, claimed, keywords.last(), loose)
        }
    }
}

/// The place of the best column for a slot: one that fits a keyword exactly, or
/// else one that fits loosely.
pub open spec fn best_fit(
    slot: Seq<char>,
    columns: Seq<SodaColumnView>,
    claimed: Seq<Seq<char>>,
) -> Option<int> {
    let exact = keyword_fit(columns, claimed, keywords_of(slot), false);
    if exact is Some {
        exact
    } else {
        keyword_fit(columns, claimed, keywords_of(slot), true)
    }
}

fn is_claimed(claimed: &Vec<String>, name: &str) -> (res: bool)
    ensures
        res == claimed.deep_view().contains(name@),
{
    let mut i: usize = 0;
    while i < claimed.len()
        invariant
            i <= claimed.len(),
            forall|j: int| 0 <= j < i ==> #[trigger] claimed.deep_view()[j] != name@,
        decreases claimed.len() - i,
    {
        if text::same(&claimed[i], name) {
            assert(claimed.deep_view()[i as int] == name@);
            return true;
        }
        assert(claimed.deep_view()[i as int] == claimed@[i as int]@);
        i += 1;
    }
    false
}

fn column_fits(col: &SodaColumn, claimed: &Vec<String>, keyword: &str, loose: bool) -> (res: bool)
    ensures
        res == fits(col.deep_view(), claimed.deep_view(), keyword@, loose),
{
    if is_claimed(claimed, &col.field_name) {
        return false;
    }
    let field = text::lower(&col.field_name);
    if loose {
        text::contains(&field, keyword) || text::contains(&text::lower(&col.name), keyword)
    } else {
        text::same(&field, keyword)
    }
}

fn find_first_fit(columns: &Vec<SodaColumn>, claimed: &Vec<String>, keyword: &str, loose: bool)
    -> (res: Option<usize>)
    ensures
        match res {
            Some(i) => i < columns.len() && first_fit(
                columns.deep_view(),
                claimed.deep_view(),
                keyword@,
                loose,
            ) == Some(i as int),
            None => first_fit(columns.deep_view(), claimed.deep_view(), keyword@, loose) is None,
        },
{
    let ghost all = columns.deep_view();
    let mut i: usize = 0;
    while i < columns.len()
        invariant
            i <= columns.len(),
            all == columns.deep_view(),
            first_fit(all.take(i as int), claimed.deep_view(), keyword@, loose) is None,
        decreases columns.len() - i,
    {
        proof {
            assert(all.take(i + 1).drop_last() == all.take(i as int));
            assert(all.take(i + 1).last() == columns@[i as int].deep_view());
        }
        if column_fits(&columns[i], claimed, keyword, loose) {
            proof {
                lemma_first_fit_stays(all, i + 1, claimed.deep_view(), keyword@, loose);
            }
            return Some(i);
        }
        i += 1;
    }
    proof {
        assert(all.take(columns.len() as int) == all);
    }
    None
}

/// The first fit among the first `n` columns is the first fit among all.
proof fn lemma_first_fit_stays(
    columns: Seq<SodaColumnView>,
    n: int,
    claimed: Seq<Seq<char>>,
    keyword: Seq<char>,
    loose: bool,
)
    requires
        0 <= n <= columns.len(),
        first_fit(columns.take(n), claimed, keyword, loose) is Some,
    ensures
        first_fit(columns, claimed, keyword, loose) == first_fit(
            columns.take(n),
            claimed,
            keyword,
            loose,
        ),
    decreases columns.len() - n,
{
    if n < columns.len() {
        assert(columns.take(n + 1).drop_last() == columns.take(n));
        lemma_first_fit_stays(columns, n + 1, claimed, keyword, loose);
    } else {
        assert(columns.take(n) == columns);
    }
}

fn find_keyword_fit(
    columns: &Vec<SodaColumn>,
    claimed: &Vec<String>,
    keywords: &Vec<&'static str>,
    loose: bool,
) -> (res: Option<usize>)
    ensures
        match res {
            Some(i) => i < columns.len() && keyword_fit(
                columns.deep_view(),
                claimed.deep_view(),
                keywords.deep_view(),
                loose,
            ) == Some(i as int),
            None => keyword_fit(
                columns.deep_view(),
                claimed.deep_view(),
                keywords.deep_view(),
                loose,
            ) is None,
        },
{
    let ghost all = keywords.deep_view();
    let mut k: usize = 0;
    while k < keywords.len()
        invariant
            k <= keywords.len(),
            all == keywords.deep_view(),
            keyword_fit(columns.deep_view(), claimed.deep_view(), all.take(k as int), loose)
                is None,
        decreases keywords.len() - k,
    {
        proof {
            assert(all.take(k + 1).drop_last() == all.take(k as int));
            assert(all.take(k + 1).last() == keywords@[k as int]@);
        }
        let found = find_first_fit(columns, claimed, keywords[k], loose);
        if found.is_some() {
            proof {
                lemma_keyword_fit_stays(
                    columns.deep_view(),
                    claimed.deep_view(),
                    all,
                    k + 1,
                    loose,
                );
            }
            return found;
        }
        k += 1;
    }
    proof {
        assert(all.take(keywords.len() as int) == all);
    }
    None
}

/// The fit of the first `n` keywords is the fit of all.
proof fn lemma_keyword_fit_stays(
    columns: Seq<SodaColumnView>,
    claimed: Seq<Seq<char>>,
    keywords: Seq<Seq<char>>,
    n: int,
    loose: bool,
)
    requires
        0 <= n <= keywords.len(),
        keyword_fit(columns, claimed, keywords.take(n), loose) is Some,
    ensures
        keyword_fit(columns, claimed, keywords, loose) == keyword_fit(
            columns,
            claimed,
            keywords.take(n),
            loose,
        ),
    decreases keywords.len() - n,
{
    if n < keywords.len() {
        assert(keywords.take(n + 1).drop_last() == keywords.take(n));
        lemma_keyword_fit_stays(columns, claimed, keywords, n + 1, loose);
    } else {
        assert(keywords.take(n) == keywords);
    }
}

/// The best column for a slot among those that are not claimed.
pub fn best_match_for_slot<'a>(
    slot: &str,
    columns: &'a Vec<SodaColumn>,
    claimed: &Vec<String>,
) -> (res: Option<&'a SodaColumn>)
    ensures
        match res {
            Some(col) => best_fit(slot@, columns.deep_view(), claimed.deep_view()) matches Some(i)
                && 0 <= i < columns.len() && *col == columns@[i],
            None => best_fit(slot@, columns.deep_view(), claimed.deep_view()) is None,
        },
{
    let keywords = slot_keywords(slot);
    match find_keyword_fit(columns, claimed, &keywords, false) {
        Some(i) => Some(&columns[i]),
        None => match find_keyword_fit(columns, claimed, &keywords, true) {
            Some(i) => Some(&columns[i]),
            None => None,
        },
    }
}

/// Whether a row holds a stray value in a column, or in any column whose name
/// speaks of the intake.
pub open spec fn stray_observed(row: Json, field_name: Seq<char>) -> bool {
    ||| {
        &&& json::cell_of(row, field_name) is Some
        &&& stray::is_stray(json::cell_of(row, field_name)->0)
    }
    ||| exists|k: Seq<char>|
        {
            &&& text::has(text::lowercase(k), "intake"@)
            &&& (#[trigger] json::cell_of(row, k)) is Some
            &&& stray::is_stray(json::cell_of(row, k)->0)
        }
}

/// The confidence that a sample row gives to a column in a slot.
pub open spec fn confidence_of(slot: Seq<char>, field_name: Seq<char>, row: Json) -> Confidence {
    let seen = if slot == "intake_type"@ {
        stray_observed(row, field_name)
    } else {
        json::member(row, field_name) is Some
    };
    if seen {
        Confidence::Confirmed
    } else {
        Confidence::Guessed
    }
}

/// The confidence that a sample row gives to a column in a slot.
pub fn determine_confidence(slot: &str, col: &SodaColumn, row: &Value) -> (res: Confidence)
    ensures
        res == confidence_of(slot@, col.field_name@, json::contents(*row)),
{
    if !text::same(slot, "intake_type") {
        return match json::get(row, &col.field_name) {
            Some(_) => Confidence::Confirmed,
            None => Confidence::Guessed,
        };
    }
    if let Some(v) = json::cell(row, &col.field_name) {
        if stray::is_stray_value(v) {
            return Confidence::Confirmed;
        }
    }
    let members = json::members(row);
    let ghost content = json::contents(*row);
    let mut i: usize = 0;
    while i < members.len()
        invariant
            i <= members.len(),
            slot@ == "intake_type"@,
            content == json::contents(*row),
            match content {
                Json::Object(m) => json::lists_members(members@, m),
                _ => members@.len() == 0,
            },
            forall|j: int|
                0 <= j < i ==> !(text::has(
                    text::lowercase((#[trigger] members@[j]).0@),
                    "intake"@,
                ) && json::text_of(json::contents(*members@[j].1)) is Some && stray::is_stray(
                    json::text_of(json::contents(*members@[j].1))->0,
                )),
        decreases members.len() - i,
    {
        let (k, v) = members[i];
        if text::contains(&text::lower(k), "intake") {
            if let Some(s) = v.as_str() {
                if stray::is_stray_value(s) {
                    assert(json::cell_of(content, members@[i as int].0@) == Some(s@));
                    return Confidence::Confirmed;
                }
            }
        }
        i += 1;
    }
    proof {
        assert forall|k: Seq<char>|
            !(text::has(text::lowercase(k), "intake"@) && (#[trigger] json::cell_of(content, k))
                is Some && stray::is_stray(json::cell_of(content, k)->0)) by {
            if json::cell_of(content, k) is Some {
                let m = content->Object_0;
                assert(m.dom().contains(k));
                let j = choose|j: int|
                    0 <= j < members@.len() && (#[trigger] members@[j]).0@ == k;
                assert(members@[j].0@ == k);
            }
        }
    }
    Confidence::Guessed
}

// ---------------------------------------------------------------------------
// The draft of a column map
// ---------------------------------------------------------------------------

/// A draft column map with per-column confidence annotations.
#[derive(Debug, Clone, PartialEq, Eq)]
pub struct ColumnMapDraft {
    /// Mapped animal ID column.
    pub animal_id: Option<MappedColumn>,
    /// Mapped animal type/species column.
    pub animal_type: Option<MappedColumn>,
    /// Mapped intake type column (may be confirmed stray-bearing).
    pub intake_type: Option<MappedColumn>,
    /// Mapped intake date column.
    pub intake_date: Option<MappedColumn>,
    /// Mapped found-location column.
    pub found_location: Option<MappedColumn>,
    /// Mapped chip/microchip status column.
    pub chip_status: Option<MappedColumn>,
    /// Mapped kennel/custody status column.
    pub kennel_status: Option<MappedColumn>,
    /// Mapped breed column.
    pub breed: Option<MappedColumn>,
    /// Mapped animal name column.
    pub name: Option<MappedColumn>,
    /// Mapped color column.
    pub color: Option<MappedColumn>,
    /// Mapped outcome date column.
    pub outcome_date: Option<MappedColumn>,
}

/// The model of a [`ColumnMapDraft`]: the column of each of the [`SLOTS`].
pub struct DraftView {
    /// The columns, in the order of the slots.
    pub columns: Seq<Option<MappedColumnView>>,
}

impl DeepView for ColumnMapDraft {
    type V = DraftView;

    open spec fn deep_view(&self) -> DraftView {
        DraftView {
            columns: seq![
                self.animal_id.deep_view(),
                self.animal_type.deep_view(),
                self.intake_type.deep_view(),
                self.intake_date.deep_view(),
                self.found_location.deep_view(),
                self.chip_status.deep_view(),
                self.kennel_status.deep_view(),
                self.breed.deep_view(),
                self.name.deep_view(),
                self.color.deep_view(),
                self.outcome_date.deep_view(),
            ],
        }
    }
}

/// The source column of a slot, where it has one.
pub open spec fn source_col(c: Option<MappedColumnView>) -> Option<Seq<char>> {
    match c {
        Some(mc) => Some(mc.source_col),
        None => None,
    }
}

impl DraftView {
    /// The column of the animal identifier.
    pub open spec fn animal_id(self) -> Option<MappedColumnView> {
        self.columns[0]
    }

    /// The column of the species.
    pub open spec fn animal_type(self) -> Option<MappedColumnView> {
        self.columns[1]
    }

    /// The column of the intake type.
    pub open spec fn intake_type(self) -> Option<MappedColumnView> {
        self.columns[2]
    }

    /// The column map, where the three required columns are there.
    pub open spec fn column_map(self) -> Option<ColumnMapView> {
        if self.animal_id() is Some && self.animal_type() is Some && self.intake_type() is Some {
            Some(
                ColumnMapView {
                    animal_id: self.animal_id()->0.source_col,
                    animal_type: self.animal_type()->0.source_col,
                    intake_type: self.intake_type()->0.source_col,
                    intake_date: source_col(self.columns[3]),
                    found_location: source_col(self.columns[4]),
                    chip_status: source_col(self.columns[5]),
                    kennel_status: source_col(self.columns[6]),
                    breed: source_col(self.columns[7]),
                    name: source_col(self.columns[8]),
                    color: source_col(self.columns[9]),
                    outcome_date: source_col(self.columns[10]),
                },
            )
        } else {
            None
        }
    }
}

fn copy_col(c: &Option<MappedColumn>) -> (res: Option<String>)
    ensures
        res.deep_view() == source_col(c.deep_view()),
{
    match c {
        Some(mc) => Some(mc.source_col.clone()),
        None => None,
    }
}

impl ColumnMapDraft {
    /// A draft without columns.
    pub fn empty() -> (res: Self)
        ensures
            res.deep_view().columns == Seq::new(11, |i: int| None::<MappedColumnView>),
    {
        let res = ColumnMapDraft {
            animal_id: None,
            animal_type: None,
            intake_type: None,
            intake_date: None,
            found_location: None,
            chip_status: None,
            kennel_status: None,
            breed: None,
            name: None,
            color: None,
            outcome_date: None,
        };
        assert(res.deep_view().columns =~= Seq::new(11, |i: int| None::<MappedColumnView>));
        res
    }

    /// The column map, where the three required columns are there.
    #[must_use]
    pub fn to_column_map(&self) -> (res: Option<SocrataColumnMap>)
        ensures
            res.deep_view() == self.deep_view().column_map(),
    {
        let animal_id = match &self.animal_id {
            Some(c) => c.source_col.clone(),
            None => return None,
        };
        let animal_type = match &self.animal_type {
            Some(c) => c.source_col.clone(),
            None => return None,
        };
        let intake_type = match &self.intake_type {
            Some(c) => c.source_col.clone(),
            None => return None,
        };
        Some(
            SocrataColumnMap {
                animal_id,
                animal_type,
                intake_type,
                outcome_date: copy_col(&self.outcome_date),
                kennel_status: copy_col(&self.kennel_status),
                found_location: copy_col(&self.found_location),
                chip_status: copy_col(&self.chip_status),
                intake_date: copy_col(&self.intake_date),
                breed: copy_col(&self.breed),
                name: copy_col(&self.name),
                color: copy_col(&self.color),
            },
        )
    }
}

/// The place of a slot among the [`SLOTS`]; past the end for any other text.
pub open spec fn slot_index(slot: Seq<char>) -> int {
    if slot == "animal_id"@ {
        0
    } else if slot == "animal_type"@ {
        1
    } else if slot == "intake_type"@ {
        2
    } else if slot == "intake_date"@ {
        3
    } else if slot == "found_location"@ {
        4
    } else if slot == "chip_status"@ {
        5
    } else if slot == "kennel_status"@ {
        6
    } else if slot == "breed"@ {
        7
    } else if slot == "name"@ {
        8
    } else if slot == "color"@ {
        9
    } else if slot == "outcome_date"@ {
        10
    } else {
        11
    }
}

/// The slots stand at the places that their names give.
pub proof fn each_slot_has_a_place(i: int)
    requires
        0 <= i < 11,
    ensures
        slot_index(SLOTS@[i]@) == i,
{
    reveal_strlit("animal_id");
    reveal_strlit("animal_type");
    reveal_strlit("intake_type");
    reveal_strlit("intake_date");
    reveal_strlit("found_location");
    reveal_strlit("chip_status");
    reveal_strlit("kennel_status");
    reveal_strlit("breed");
    reveal_strlit("name");
    reveal_strlit("color");
    reveal_strlit("outcome_date");
    assert("animal_id"@.len() == 9);
    assert("animal_type"@.len() == 11 && "animal_type"@[0] == 'a');
    assert("intake_type"@.len() == 11 && "intake_type"@[0] == 'i' && "intake_type"@[7] == 't');
    assert("intake_date"@.len() == 11 && "intake_date"@[0] == 'i' && "intake_date"@[7] == 'd');
    assert("found_location"@.len() == 14);
    assert("chip_status"@.len() == 11 && "chip_status"@[0] == 'c');
    assert("kennel_status"@.len() == 13);
    assert("breed"@.len() == 5 && "breed"@[0] == 'b');
    assert("name"@.len() == 4);
    assert("color"@.len() == 5 && "color"@[0] == 'c');
    assert("outcome_date"@.len() == 12);
}

/// Puts a column into a slot of the draft; nothing happens for a text that names
/// no slot.
pub fn assign_to_draft(draft: &mut ColumnMapDraft, slot: &str, mc: MappedColumn)
    ensures
        final(draft).deep_view().columns == (if slot_index(slot@) < 11 {
            old(draft).deep_view().columns.update(slot_index(slot@), Some(mc.deep_view()))
        } else {
            old(draft).deep_view().columns
        }),
{
    let ghost before = draft.deep_view().columns;
    let ghost view = mc.deep_view();
    if text::same(slot, "animal_id") {
        draft.animal_id = Some(mc);
    } else if text::same(slot, "animal_type") {
        draft.animal_type = Some(mc);
    } else if text::same(slot, "intake_type") {
        draft.intake_type = Some(mc);
    } else if text::same(slot, "intake_date") {
        draft.intake_date = Some(mc);
    } else if text::same(slot, "found_location") {
        draft.found_location = Some(mc);
    } else if text::same(slot, "chip_status") {
        draft.chip_status = Some(mc);
    } else if text::same(slot, "kennel_status") {
        draft.kennel_status = Some(mc);
    } else if text::same(slot, "breed") {
        draft.breed = Some(mc);
    } else if text::same(slot, "name") {
        draft.name = Some(mc);
    } else if text::same(slot, "color") {
        draft.color = Some(mc);
    } else if text::same(slot, "outcome_date") {
        draft.outcome_date = Some(mc);
    }
    proof {
        let i = slot_index(slot@);
        if i < 11 {
            assert(draft.deep_view().columns =~= before.update(i, Some(view)));
        } else {
            assert(draft.deep_view().columns =~= before);
        }
    }
}

/// The columns that the first `n` slots have claimed, in order.
pub open spec fn claimed_by(picks: Seq<Option<MappedColumnView>>) -> Seq<Seq<char>>
    decreases picks.len(),
{
    if picks.len() == 0 {
        Seq::empty()
    } else {
        let before = claimed_by(picks.drop_last());
        match picks.last() {
            Some(mc) => before.push(mc.source_col),
            None => before,
        }
    }
}

/// What the first `n` slots choose: each the best column that no earlier slot
/// has claimed, with the confidence that the sample row gives.
pub open spec fn picks_of(columns: Seq<SodaColumnView>, row: Json, n: nat) -> Seq<
    Option<MappedColumnView>,
>
    decreases n,
{
    if n == 0 {
        Seq::empty()
    } else {
        let before = picks_of(columns, row, (n - 1) as nat);
        let slot = SLOTS@[n - 1]@;
        before.push(
            match best_fit(slot, columns, claimed_by(before)) {
                Some(i) => Some(
                    MappedColumnView {
                        source_col: columns[i].field_name,
                        slot,
                        confidence: confidence_of(slot, columns[i].field_name, row),
                    },
                ),
                None => None,
            },
        )
    }
}

/// The draft that columns and a sample row give.
pub open spec fn draft_of(columns: Seq<SodaColumnView>, row: Json) -> DraftView {
    DraftView { columns: picks_of(columns, row, 11) }
}

/// Classifies columns into the slots of a column map.
pub fn classify_columns(columns: &Vec<SodaColumn>, row: &Value) -> (res: ColumnMapDraft)
    ensures
        res.deep_view() == draft_of(columns.deep_view(), json::contents(*row)),
{
    let mut draft = ColumnMapDraft::empty();
    let mut claimed: Vec<String> = Vec::new();
    let ghost cols = columns.deep_view();
    let ghost sample = json::contents(*row);
    let mut n: usize = 0;
    while n < SLOTS.len()
        invariant
            n <= 11,
            SLOTS@.len() == 11,
            cols == columns.deep_view(),
            sample == json::contents(*row),
            picks_of(cols, sample, n as nat).len() == n,
            claimed.deep_view() =~= claimed_by(picks_of(cols, sample, n as nat)),
            draft.deep_view().columns.len() == 11,
            forall|i: int|
                0 <= i < 11 ==> #[trigger] draft.deep_view().columns[i] == (if i < n {
                    picks_of(cols, sample, n as nat)[i]
                } else {
                    None
                }),
        decreases 11 - n,
    {
        let slot = SLOTS[n];
        let ghost before = picks_of(cols, sample, n as nat);
        let ghost after = picks_of(cols, sample, (n + 1) as nat);
        let ghost taken = claimed.deep_view();
        let ghost old_columns = draft.deep_view().columns;
        proof {
            each_slot_has_a_place(n as int);
            assert(after.drop_last() =~= before);
        }
        match best_match_for_slot(slot, columns, &claimed) {
            Some(col) => {
                let confidence = determine_confidence(slot, col, row);
                let mc = MappedColumn { source_col: col.field_name.clone(), slot, confidence };
                claimed.push(col.field_name.clone());
                assign_to_draft(&mut draft, slot, mc);
                proof {
                    assert(after.last() == Some(mc.deep_view()));
                    assert(claimed.deep_view() =~= taken.push(col.field_name@));
                    assert(draft.deep_view().columns == old_columns.update(
                        n as int,
                        Some(mc.deep_view()),
                    ));
                }
            },
            None => {
                assert(after.last() is None);
            },
        }
        n += 1;
    }
    proof {
        assert(draft.deep_view().columns =~= picks_of(cols, sample, 11));
    }
    draft
}

// ---------------------------------------------------------------------------
// The probe
// ---------------------------------------------------------------------------

/// The outcome of a probe run.
#[derive(Debug, Clone, Copy, PartialEq, Eq, Structural)]
pub enum Verdict {
    /// Dataset is a usable stray-bearing feed.
    Green,
    /// Dataset is not usable; reason explains why.
    Red,
}

/// The pause between requests of a probe, in milliseconds.
pub const MIN_INTERVAL_MS: u64 = 300;

/// The full probe result.
#[derive(Debug, Clone, PartialEq, Eq)]
pub struct ProbeResult {
    /// Overall verdict.
    pub verdict: Verdict,
    /// Human-readable reason (for RED) or summary (for GREEN).
    pub reason: String,
    /// The column map assembled from probing (None on hard RED before mapping).
    pub column_map: Option<ColumnMapDraft>,
    /// The slug/name for the source.
    pub source_name: String,
    /// Which family of portals the dataset belongs to.
    pub family: CandidateFamily,
    /// Domain probed; for OpenDataSoft, the portal's base URL.
    pub domain: String,
    /// Dataset ID probed.
    pub dataset_id: String,
}

/// The model of a [`ProbeResult`].
pub struct ProbeResultView {
    /// Overall verdict.
    pub verdict: Verdict,
    /// Reason or summary.
    pub reason: Seq<char>,
    /// The draft column map.
    pub column_map: Option<DraftView>,
    /// The slug/name for the source.
    pub source_name: Seq<char>,
    /// The family of portals.
    pub family: CandidateFamily,
    /// Domain or base URL probed.
    pub domain: Seq<char>,
    /// Dataset ID probed.
    pub dataset_id: Seq<char>,
}

impl DeepView for ProbeResult {
    type V = ProbeResultView;

    open spec fn deep_view(&self) -> ProbeResultView {
        ProbeResultView {
            verdict: self.verdict,
            reason: self.reason@,
            column_map: self.column_map.deep_view(),
            source_name: self.source_name@,
            family: self.family,
            domain: self.domain@,
            dataset_id: self.dataset_id@,
        }
    }
}

/// Where the column metadata of a dataset is.
pub fn columns_url(domain: &str, dataset_id: &str) -> (res: String)
    ensures
        res@ == "https://"@ + domain@ + "/api/views/"@ + dataset_id@ + "/columns.json"@,
{
    "https://".to_owned().concat(domain).concat("/api/views/").concat(dataset_id).concat(
        "/columns.json",
    )
}

/// Where a one-row sample of a dataset is.
pub fn sample_url(domain: &str, dataset_id: &str) -> (res: String)
    ensures
        res@ == "https://"@ + domain@ + "/resource/"@ + dataset_id@ + ".json?$limit=1"@,
{
    "https://".to_owned().concat(domain).concat("/resource/").concat(dataset_id).concat(
        ".json?$limit=1",
    )
}

/// The first row of a sample; `null` where the text is no array of rows.
pub open spec fn sample_row(sample: Seq<char>) -> Json {
    match json::json_of(sample) {
        Ok(Json::List(rows)) => if rows.len() > 0 {
            rows[0]
        } else {
            Json::Null
        },
        _ => Json::Null,
    }
}

/// The first row of a sample; `null` where the text is no array of rows.
pub fn read_sample_row(sample: &str) -> (res: Value)
    ensures
        json::contents(res) == sample_row(sample@),
{
    if let Ok(v) = json::parse(sample) {
        if let Some(rows) = v.as_array() {
            if rows.len() > 0 {
                assert(json::all_contents(rows@)[0] == json::contents(rows@[0]));
                return rows[0].clone();
            }
        }
    }
    json::null()
}

/// Why a dataset without columns is not usable.
pub open spec fn no_columns_reason(domain: Seq<char>, dataset_id: Seq<char>) -> Seq<char> {
    "no columns returned from "@ + domain + "/api/views/"@ + dataset_id
        + "/columns.json; dataset may not exist or may not be a SODA dataset"@
}

/// The verdict on a draft, and the reason for it: the three required columns
/// have to be there, and the intake type has to be confirmed.
pub open spec fn judgement(draft: DraftView, domain: Seq<char>, dataset_id: Seq<char>) -> (
    Verdict,
    Seq<char>,
) {
    if draft.animal_id() is None {
        (
            Verdict::Red,
            "no animal_id-like column found in dataset "@ + dataset_id + " on "@ + domain
                + "; cannot uniquely identify animals"@,
        )
    } else if draft.animal_type() is None {
        (
            Verdict::Red,
            "no animal_type/species column found in dataset "@ + dataset_id
                + "; cannot filter dogs and cats"@,
        )
    } else if draft.intake_type() is None {
        (
            Verdict::Red,
            "no intake_type column found in dataset "@ + dataset_id
                + "; this appears to be an adoptable-only feed, not a stray-intake feed"@,
        )
    } else if draft.intake_type()->0.confidence != Confidence::Confirmed {
        (
            Verdict::Red,
            "intake_type column found in dataset "@ + dataset_id
                + " but no STRAY/FOUND value observed in the sample; this may be an adoptable-only feed, not a stray-intake feed. Column guessed: "@
                + draft.intake_type()->0.source_col,
        )
    } else {
        (
            Verdict::Green,
            "dataset "@ + dataset_id + " on "@ + domain
                + " has required columns (animal_id, animal_type, intake_type) with confirmed STRAY values"@,
        )
    }
}

/// The verdict on a draft, and the reason for it.
pub fn judge_draft(draft: &ColumnMapDraft, domain: &str, dataset_id: &str) -> (res: (
    Verdict,
    String,
))
    ensures
        (res.0, res.1@) == judgement(draft.deep_view(), domain@, dataset_id@),
{
    if draft.animal_id.is_none() {
        return (
            Verdict::Red,
            "no animal_id-like column found in dataset ".to_owned().concat(dataset_id).concat(
                " on ",
            ).concat(domain).concat("; cannot uniquely identify animals"),
        );
    }
    if draft.animal_type.is_none() {
        return (
            Verdict::Red,
            "no animal_type/species column found in dataset ".to_owned().concat(
                dataset_id,
            ).concat("; cannot filter dogs and cats"),
        );
    }
    match &draft.intake_type {
        None => (
            Verdict::Red,
            "no intake_type column found in dataset ".to_owned().concat(dataset_id).concat(
                "; this appears to be an adoptable-only feed, not a stray-intake feed",
            ),
        ),
        Some(c) => if c.confidence != Confidence::Confirmed {
            (
                Verdict::Red,
                "intake_type column found in dataset ".to_owned().concat(dataset_id).concat(
                    " but no STRAY/FOUND value observed in the sample; this may be an adoptable-only feed, not a stray-intake feed. Column guessed: ",
                ).concat(&c.source_col),
            )
        } else {
            (
                Verdict::Green,
                "dataset ".to_owned().concat(dataset_id).concat(" on ").concat(domain).concat(
                    " has required columns (animal_id, animal_type, intake_type) with confirmed STRAY values",
                ),
            )
        },
    }
}

/// What the columns of a dataset and a sample row say of it.
pub open spec fn probe_result(
    columns: Seq<SodaColumnView>,
    row: Json,
    domain: Seq<char>,
    dataset_id: Seq<char>,
    source_name: Seq<char>,
) -> ProbeResultView {
    if columns.len() == 0 {
        ProbeResultView {
            verdict: Verdict::Red,
            reason: no_columns_reason(domain, dataset_id),
            column_map: None,
            source_name,
            family: CandidateFamily::Socrata,
            domain,
            dataset_id,
        }
    } else {
        let draft = draft_of(columns, row);
        ProbeResultView {
            verdict: judgement(draft, domain, dataset_id).0,
            reason: judgement(draft, domain, dataset_id).1,
            column_map: Some(draft),
            source_name,
            family: CandidateFamily::Socrata,
            domain,
            dataset_id,
        }
    }
}

/// Judges a dataset by its columns and a sample row.
pub fn probe_columns(
    columns: &Vec<SodaColumn>,
    row: &Value,
    domain: &str,
    dataset_id: &str,
    source_name: &str,
) -> (res: ProbeResult)
    ensures
        res.deep_view() == probe_result(
            columns.deep_view(),
            json::contents(*row),
            domain@,
            dataset_id@,
            source_name@,
        ),
{
    if columns.len() == 0 {
        return ProbeResult {
            verdict: Verdict::Red,
            reason: "no columns returned from ".to_owned().concat(domain).concat(
                "/api/views/",
            ).concat(dataset_id).concat(
                "/columns.json; dataset may not exist or may not be a SODA dataset",
            ),
            column_map: None,
            source_name: source_name.to_owned(),
            family: CandidateFamily::Socrata,
            domain: domain.to_owned(),
            dataset_id: dataset_id.to_owned(),
        };
    }
    let draft = classify_columns(columns, row);
    let (verdict, reason) = judge_draft(&draft, domain, dataset_id);
    ProbeResult {
        verdict,
        reason,
        column_map: Some(draft),
        source_name: source_name.to_owned(),
        family: CandidateFamily::Socrata,
        domain: domain.to_owned(),
        dataset_id: dataset_id.to_owned(),
    }
}

/// The columns that a reply to the metadata request holds. A dataset that is
/// not there is named by its identifier and domain.
pub open spec fn metadata_columns(
    reply: Result<Seq<char>, ProbeErrorView>,
    domain: Seq<char>,
    dataset_id: Seq<char>,
) -> Result<Seq<SodaColumnView>, ProbeErrorView> {
    match reply {
        Err(ProbeErrorView::NotFound { url }) => Err(
            ProbeErrorView::NotFound { url: "dataset "@ + dataset_id + " on "@ + domain },
        ),
        Err(e) => Err(e),
        Ok(text) => match json::json_of(text) {
            Ok(metadata) => Ok(columns_of(metadata)),
            Err(e) => Err(ProbeErrorView::Json(e)),
        },
    }
}

/// Reads the columns out of a reply to the metadata request. Where there are
/// some, a sample has to be fetched before the dataset can be judged.
pub fn read_columns(reply: Result<String, ProbeError>, domain: &str, dataset_id: &str) -> (res:
    Result<Vec<SodaColumn>, ProbeError>)
    ensures
        outcome::of(res) == metadata_columns(outcome::of(reply), domain@, dataset_id@),
{
    let text = match reply {
        Ok(text) => text,
        Err(ProbeError::NotFound { url: _ }) => return Err(
            ProbeError::NotFound {
                url: "dataset ".to_owned().concat(dataset_id).concat(" on ").concat(domain),
            },
        ),
        Err(e) => return Err(e),
    };
    match json::parse(&text) {
        Ok(metadata) => Ok(parse_soda_columns(&metadata)),
        Err(e) => Err(ProbeError::Json(e)),
    }
}

/// What a probe makes of the replies to its two requests. A sample that could
/// not be had counts as an empty text.
pub open spec fn probe_of(
    metadata: Result<Seq<char>, ProbeErrorView>,
    sample: Seq<char>,
    domain: Seq<char>,
    dataset_id: Seq<char>,
    source_name: Seq<char>,
) -> Result<ProbeResultView, ProbeErrorView> {
    match metadata_columns(metadata, domain, dataset_id) {
        Err(e) => Err(e),
        Ok(columns) => Ok(
            probe_result(columns, sample_row(sample), domain, dataset_id, source_name),
        ),
    }
}

/// Probes a Socrata dataset, given the replies to the requests for its columns
/// and for a sample.
pub fn run_probe(
    metadata: Result<String, ProbeError>,
    sample: &str,
    domain: &str,
    dataset_id: &str,
    source_name: &str,
) -> (res: Result<ProbeResult, ProbeError>)
    ensures
        outcome::of(res) == probe_of(
            outcome::of(metadata),
            sample@,
            domain@,
            dataset_id@,
            source_name@,
        ),
{
    let columns = match read_columns(metadata, domain, dataset_id) {
        Ok(columns) => columns,
        Err(e) => return Err(e),
    };
    let row = read_sample_row(sample);
    Ok(probe_columns(&columns, &row, domain, dataset_id, source_name))
}

/// The columns that the fields of an OpenDataSoft dataset are: a field has one
/// name for the API and for people.
pub open spec fn columns_named(fields: Seq<Seq<char>>) -> Seq<SodaColumnView> {
    fields.map_values(|f: Seq<char>| SodaColumnView { field_name: f, name: f })
}

/// The columns of an OpenDataSoft dataset, from the names of its fields.
pub fn field_columns(fields: &Vec<String>) -> (res: Vec<SodaColumn>)
    ensures
        res.deep_view() == columns_named(fields.deep_view()),
{
    let ghost wanted = columns_named(fields.deep_view());
    let mut columns: Vec<SodaColumn> = Vec::new();
    let mut i: usize = 0;
    while i < fields.len()
        invariant
            i <= fields.len(),
            wanted == columns_named(fields.deep_view()),
            columns.deep_view() =~= wanted.take(i as int),
        decreases fields.len() - i,
    {
        let ghost before = columns.deep_view();
        let column = SodaColumn { field_name: fields[i].clone(), name: fields[i].clone() };
        columns.push(column);
        proof {
            assert(columns.deep_view() =~= before.push(column.deep_view()));
            assert(wanted[i as int] == column.deep_view());
        }
        i += 1;
    }
    assert(wanted.take(fields.len() as int) =~= wanted);
    columns
}

/// Why an OpenDataSoft dataset without fields is not usable.
pub open spec fn no_fields_reason(base_url: Seq<char>, dataset_id: Seq<char>) -> Seq<char> {
    "no fields returned from "@ + opendatasoft::dataset_url(base_url, dataset_id)
        + "; dataset may not exist or may not be an OpenDataSoft dataset"@
}

/// What the fields of an OpenDataSoft dataset and a sample record say of it:
/// what columns of those names would, but for the family and for the reason
/// where there are none.
pub open spec fn ods_probe_result(
    fields: Seq<Seq<char>>,
    row: Json,
    base_url: Seq<char>,
    dataset_id: Seq<char>,
    source_name: Seq<char>,
) -> ProbeResultView {
    let judged = probe_result(columns_named(fields), row, base_url, dataset_id, source_name);
    ProbeResultView {
        family: CandidateFamily::OpenDataSoft,
        reason: if fields.len() == 0 {
            no_fields_reason(base_url, dataset_id)
        } else {
            judged.reason
        },
        ..judged
    }
}

/// Judges an OpenDataSoft dataset by its fields and a sample record.
pub fn probe_fields(
    fields: &Vec<String>,
    row: &Value,
    base_url: &str,
    dataset_id: &str,
    source_name: &str,
) -> (res: ProbeResult)
    ensures
        res.deep_view() == ods_probe_result(
            fields.deep_view(),
            json::contents(*row),
            base_url@,
            dataset_id@,
            source_name@,
        ),
{
    let columns = field_columns(fields);
    let mut result = probe_columns(&columns, row, base_url, dataset_id, source_name);
    result.family = CandidateFamily::OpenDataSoft;
    if fields.len() == 0 {
        result.reason = "no fields returned from ".to_owned().concat(
            &opendatasoft::ods_fields_url(base_url, dataset_id),
        ).concat("; dataset may not exist or may not be an OpenDataSoft dataset");
    }
    result
}

// ---------------------------------------------------------------------------
// Output
// ---------------------------------------------------------------------------

/// The line of a column in a catalog entry; nothing where there is no column.
pub open spec fn column_line(slot: Seq<char>, c: Option<MappedColumnView>) -> Seq<char> {
    match c {
        Some(mc) => slot + " = "@ + text::quoted(mc.source_col) + "  # "@ + mc.confidence.word()
            + "\n"@,
        None => Seq::empty(),
    }
}

/// The lines of the first `n` slots of a draft.
pub open spec fn column_lines(draft: DraftView, n: nat) -> Seq<char>
    decreases n,
{
    if n == 0 {
        Seq::empty()
    } else {
        column_lines(draft, (n - 1) as nat) + column_line(SLOTS@[n - 1]@, draft.columns[n - 1])
    }
}

/// The key under which a catalog entry names the portal.
pub open spec fn portal_key(family: CandidateFamily) -> Seq<char> {
    match family {
        CandidateFamily::Socrata => "domain"@,
        CandidateFamily::OpenDataSoft => "base_url"@,
    }
}

/// A probed dataset as an entry of a catalog; empty where there is no draft.
pub open spec fn toml_entry(result: ProbeResultView) -> Seq<char> {
    match result.column_map {
        None => Seq::empty(),
        Some(draft) => "[["@ + result.family.name() + "]]\n"@ + "name = "@ + text::quoted(
            result.source_name,
        ) + "\n"@ + portal_key(result.family) + " = "@ + text::quoted(result.domain) + "\n"@
            + "dataset_id = "@ + text::quoted(result.dataset_id) + "\n"@ + "\n"@ + "["@
            + result.family.name() + ".column_map]\n"@ + column_lines(draft, 11),
    }
}

fn write_column_line(slot: &str, c: &Option<MappedColumn>) -> (res: String)
    ensures
        res@ == column_line(slot@, c.deep_view()),
{
    match c {
        Some(mc) => slot.to_owned().concat(" = ").concat(&text::quote(&mc.source_col)).concat(
            "  # ",
        ).concat(mc.confidence.as_str()).concat("\n"),
        None => String::new(),
    }
}

fn write_column_lines(draft: &ColumnMapDraft) -> (res: String)
    ensures
        res@ == column_lines(draft.deep_view(), 11),
{
    let res = write_column_line("animal_id", &draft.animal_id).concat(
        &write_column_line("animal_type", &draft.animal_type),
    ).concat(&write_column_line("intake_type", &draft.intake_type)).concat(
        &write_column_line("intake_date", &draft.intake_date),
    ).concat(&write_column_line("found_location", &draft.found_location)).concat(
        &write_column_line("chip_status", &draft.chip_status),
    ).concat(&write_column_line("kennel_status", &draft.kennel_status)).concat(
        &write_column_line("breed", &draft.breed),
    ).concat(&write_column_line("name", &draft.name)).concat(
        &write_column_line("color", &draft.color),
    ).concat(&write_column_line("outcome_date", &draft.outcome_date));
    proof {
        reveal_with_fuel(column_lines, 12);
        let view = draft.deep_view();
        assert(Seq::<char>::empty() + column_line("animal_id"@, view.columns[0]) =~= column_line(
            "animal_id"@,
            view.columns[0],
        ));
    }
    res
}

/// Formats a probe result as a TOML block, `[[socrata]]` or `[[opendatasoft]]`.
#[must_use]
pub fn format_green_toml(result: &ProbeResult) -> (res: String)
    ensures
        res@ == toml_entry(result.deep_view()),
{
    let draft = match &result.column_map {
        Some(d) => d,
        None => return String::new(),
    };
    let family = result.family.label();
    let portal = match result.family {
        CandidateFamily::Socrata => "domain",
        CandidateFamily::OpenDataSoft => "base_url",
    };
    "[[".to_owned().concat(&family).concat("]]\n").concat("name = ").concat(
        &text::quote(&result.source_name),
    ).concat("\n").concat(portal).concat(" = ").concat(&text::quote(&result.domain)).concat(
        "\n",
    ).concat("dataset_id = ").concat(&text::quote(&result.dataset_id)).concat("\n").concat(
        "\n",
    ).concat("[").concat(&family).concat(".column_map]\n").concat(&write_column_lines(draft))
}

/// Structured output of a probe.
pub struct JsonOutput {
    /// `"GREEN"` or `"RED"`.
    pub verdict: String,
    /// Human-readable explanation.
    pub reason: String,
    /// Draft column map or TOML block (GREEN), or partial findings (RED).
    pub draft: Option<Value>,
}

/// The model of a [`JsonOutput`].
pub struct JsonOutputView {
    /// `"GREEN"` or `"RED"`.
    pub verdict: Seq<char>,
    /// Explanation.
    pub reason: Seq<char>,
    /// The draft.
    pub draft: Option<Json>,
}

impl DeepView for JsonOutput {
    type V = JsonOutputView;

    open spec fn deep_view(&self) -> JsonOutputView {
        JsonOutputView {
            verdict: self.verdict@,
            reason: self.reason@,
            draft: match self.draft {
                Some(v) => Some(json::contents(v)),
                None => None,
            },
        }
    }
}

/// What is told of a draft: the catalog entry of a usable dataset; of any other
/// the three required columns, where all are there.
pub open spec fn draft_document(result: ProbeResultView) -> Option<Json> {
    match result.column_map {
        None => None,
        Some(draft) => if result.verdict == Verdict::Green {
            Some(Json::Object(Map::empty().insert("toml"@, Json::Text(toml_entry(result)))))
        } else {
            match draft.column_map() {
                None => None,
                Some(m) => Some(
                    Json::Object(
                        Map::empty().insert("animal_id"@, Json::Text(m.animal_id)).insert(
                            "animal_type"@,
                            Json::Text(m.animal_type),
                        ).insert("intake_type"@, Json::Text(m.intake_type)),
                    ),
                ),
            }
        },
    }
}

/// The structured output of a probe.
pub open spec fn output_of(result: ProbeResultView) -> JsonOutputView {
    JsonOutputView {
        verdict: match result.verdict {
            Verdict::Green => "GREEN"@,
            Verdict::Red => "RED"@,
        },
        reason: result.reason,
        draft: draft_document(result),
    }
}

/// The structured output of a probe.
pub fn json_output(result: &ProbeResult) -> (res: JsonOutput)
    ensures
        res.deep_view() == output_of(result.deep_view()),
{
    let draft = match &result.column_map {
        None => None,
        Some(d) => if result.verdict == Verdict::Green {
            let mut members: Vec<(String, Value)> = Vec::new();
            members.push(("toml".to_owned(), json::text(format_green_toml(result))));
            proof {
                reveal_with_fuel(json::object_of, 2);
                assert(members@.drop_last() =~= Seq::empty());
            }
            Some(json::object(members))
        } else {
            match d.to_column_map() {
                None => None,
                Some(m) => {
                    let mut members: Vec<(String, Value)> = Vec::new();
                    members.push(("animal_id".to_owned(), json::text(m.animal_id)));
                    members.push(("animal_type".to_owned(), json::text(m.animal_type)));
                    members.push(("intake_type".to_owned(), json::text(m.intake_type)));
                    proof {
                        reveal_with_fuel(json::object_of, 4);
                        assert(members@.drop_last().drop_last().drop_last() =~= Seq::empty());
                    }
                    Some(json::object(members))
                },
            }
        },
    };
    JsonOutput {
        verdict: match result.verdict {
            Verdict::Green => "GREEN".to_owned(),
            Verdict::Red => "RED".to_owned(),
        },
        reason: result.reason.clone(),
        draft,
    }
}

// ---------------------------------------------------------------------------
// The command
// ---------------------------------------------------------------------------

/// The arguments of the `probe` command.
#[derive(Debug, Clone, PartialEq, Eq)]
pub struct ProbeArgs {
    /// The family of portals that the dataset belongs to.
    pub family: CandidateFamily,
    /// The domain to probe.
    pub domain: String,
    /// The dataset to probe.
    pub dataset_id: String,
    /// The name for the source.
    pub source_name: String,
    /// Whether to print structured output.
    pub json: bool,
}

/// The model of [`ProbeArgs`].
pub struct ProbeArgsView {
    /// The family of portals.
    pub family: CandidateFamily,
    /// The domain to probe.
    pub domain: Seq<char>,
    /// The dataset to probe.
    pub dataset_id: Seq<char>,
    /// The name for the source.
    pub source_name: Seq<char>,
    /// Whether to print structured output.
    pub json: bool,
}

impl DeepView for ProbeArgs {
    type V = ProbeArgsView;

    open spec fn deep_view(&self) -> ProbeArgsView {
        ProbeArgsView {
            family: self.family,
            domain: self.domain@,
            dataset_id: self.dataset_id@,
            source_name: self.source_name@,
            json: self.json,
        }
    }
}

/// The family of a name, if datasets of it can be probed.
pub open spec fn family_named(name: Seq<char>) -> Result<CandidateFamily, Seq<char>> {
    if name == "socrata"@ {
        Ok(CandidateFamily::Socrata)
    } else if name == "opendatasoft"@ {
        Ok(CandidateFamily::OpenDataSoft)
    } else {
        Err(
            "unknown family "@ + text::quoted(name) + "; supported: socrata, opendatasoft"@,
        )
    }
}

fn read_family(name: &str) -> (res: Result<CandidateFamily, String>)
    ensures
        match res {
            Ok(family) => family_named(name@) == Ok::<CandidateFamily, Seq<char>>(family),
            Err(e) => family_named(name@) == Err::<CandidateFamily, Seq<char>>(e@),
        },
{
    if text::same(name, "socrata") {
        Ok(CandidateFamily::Socrata)
    } else if text::same(name, "opendatasoft") {
        Ok(CandidateFamily::OpenDataSoft)
    } else {
        Err(
            "unknown family ".to_owned().concat(&text::quote(name)).concat(
                "; supported: socrata, opendatasoft",
            ),
        )
    }
}

/// The arguments with the options from place `i` on taken in, or the complaint
/// about the first option that is not understood.
pub open spec fn probe_options(args: Seq<Seq<char>>, i: int, given: ProbeArgsView) -> Result<
    ProbeArgsView,
    Seq<char>,
>
    decreases args.len() - i,
{
    if i >= args.len() {
        Ok(given)
    } else if args[i] == "--name"@ {
        if i + 1 >= args.len() {
            Err("--name requires a value"@)
        } else {
            probe_options(
                args,
                i + 2,
                ProbeArgsView { source_name: args[i + 1], ..given },
            )
        }
    } else if args[i] == "--family"@ {
        if i + 1 >= args.len() {
            Err("--family requires a value"@)
        } else {
            match family_named(args[i + 1]) {
                Ok(family) => probe_options(args, i + 2, ProbeArgsView { family, ..given }),
                Err(e) => Err(e),
            }
        }
    } else if args[i] == "--json"@ {
        probe_options(args, i + 1, ProbeArgsView { json: true, ..given })
    } else {
        Err("unknown argument: "@ + text::quoted(args[i]))
    }
}

/// What the arguments of the `probe` command mean: a domain and a dataset, with
/// options behind them; the family may also stand in front. Without a family the
/// dataset is Socrata's, and without a name the source is called after the
/// dataset.
pub open spec fn probe_args(args: Seq<Seq<char>>) -> Result<ProbeArgsView, Seq<char>> {
    if args.len() > 0 && args[0] == "--family"@ {
        if args.len() < 2 {
            Err("--family requires a value"@)
        } else {
            match family_named(args[1]) {
                Ok(family) => dataset_args(args, 2, family),
                Err(e) => Err(e),
            }
        }
    } else {
        dataset_args(args, 0, CandidateFamily::Socrata)
    }
}

/// What the arguments mean whose domain stands at place `i`.
pub open spec fn dataset_args(args: Seq<Seq<char>>, i: int, family: CandidateFamily) -> Result<
    ProbeArgsView,
    Seq<char>,
> {
    if args.len() < i + 2 {
        Err("Usage: homeward probe <domain> <dataset_id> [--name <slug>] [--json]"@)
    } else {
        probe_options(
            args,
            i + 2,
            ProbeArgsView {
                family,
                domain: args[i],
                dataset_id: args[i + 1],
                source_name: text::replaced_all(args[i + 1], '-', '_'),
                json: false,
            },
        )
    }
}

/// Reads the arguments of the `probe` command.
pub fn parse_probe_args(args: &Vec<String>) -> (res: Result<ProbeArgs, String>)
    ensures
        outcome::of(res) == probe_args(args.deep_view()),
{
    let mut family = CandidateFamily::Socrata;
    let mut first: usize = 0;
    proof {
        assert(args.len() > 0 ==> args.deep_view()[0] == args@[0]@);
        assert(args.len() > 1 ==> args.deep_view()[1] == args@[1]@);
    }
    if args.len() > 0 && text::same(&args[0], "--family") {
        if args.len() < 2 {
            return Err("--family requires a value".to_owned());
        }
        family = match read_family(&args[1]) {
            Ok(family) => family,
            Err(e) => return Err(e),
        };
        first = 2;
    }
    if args.len() < first + 2 {
        return Err(
            "Usage: homeward probe <domain> <dataset_id> [--name <slug>] [--json]".to_owned(),
        );
    }
    let mut given = ProbeArgs {
        family,
        domain: args[first].clone(),
        dataset_id: args[first + 1].clone(),
        source_name: text::replace_all(&args[first + 1], '-', '_'),
        json: false,
    };
    let ghost all = args.deep_view();
    let mut i: usize = first + 2;
    while i < args.len()
        invariant
            i <= args.len(),
            all == args.deep_view(),
            probe_options(all, i as int, given.deep_view()) == probe_args(all),
        decreases args.len() - i,
    {
        proof {
            assert(all[i as int] == args@[i as int]@);
            assert(i + 1 < all.len() ==> all[i + 1] == args@[i + 1]@);
        }
        let arg = args[i].as_str();
        if text::same(arg, "--name") {
            if i + 1 >= args.len() {
                return Err("--name requires a value".to_owned());
            }
            given.source_name = args[i + 1].clone();
            i += 2;
        } else if text::same(arg, "--family") {
            if i + 1 >= args.len() {
                return Err("--family requires a value".to_owned());
            }
            given.family = match read_family(&args[i + 1]) {
                Ok(family) => family,
                Err(e) => return Err(e),
            };
            i += 2;
        } else if text::same(arg, "--json") {
            given.json = true;
            i += 1;
        } else {
            return Err("unknown argument: ".to_owned().concat(&text::quote(arg)));
        }
    }
    Ok(given)
}

/// What a command prints and returns.
pub struct ProbeReport {
    /// The exit code.
    pub code: i32,
    /// Lines for the standard output.
    pub stdout: Vec<String>,
    /// Lines for the error output.
    pub stderr: Vec<String>,
    /// A document for the standard output.
    pub json: Option<JsonOutput>,
}

/// The model of a [`ProbeReport`].
pub struct ProbeReportView {
    /// The exit code.
    pub code: int,
    /// Lines for the standard output.
    pub stdout: Seq<Seq<char>>,
    /// Lines for the error output.
    pub stderr: Seq<Seq<char>>,
    /// A document for the standard output.
    pub json: Option<JsonOutputView>,
}

impl DeepView for ProbeReport {
    type V = ProbeReportView;

    open spec fn deep_view(&self) -> ProbeReportView {
        ProbeReportView {
            code: self.code as int,
            stdout: self.stdout.deep_view(),
            stderr: self.stderr.deep_view(),
            json: self.json.deep_view(),
        }
    }
}

/// The address that a probe fetches.
pub fn probe_url(text: &str) -> (res: Result<Url, ProbeError>)
    ensures
        match web::parsed(text@) {
            Ok(t) => res matches Ok(u) && web::url_text(u) == t,
            Err(complaint) => res matches Err(e) && e.deep_view() == ProbeErrorView::Http(complaint),
        },
{
    match web::parse(text) {
        Ok(u) => Ok(u),
        Err(complaint) => Err(ProbeError::Http(complaint)),
    }
}

/// What a fetch came to: the error of the request, or a status with the text of
/// the reply.
pub type Fetched = Result<(u16, Result<String, String>), ConnectorError>;

/// The text that was fetched for a probe. A dataset that is not there is told
/// apart from other failures.
pub open spec fn probe_text(fetched: Fetched, url: Seq<char>) -> Result<Seq<char>, ProbeErrorView> {
    match fetched {
        Err(ConnectorError::UnexpectedStatus { status: 404, .. }) => Err(
            ProbeErrorView::NotFound { url },
        ),
        Err(e) => Err(ProbeErrorView::Http(e.deep_view().message())),
        Ok((404, _)) => Err(ProbeErrorView::NotFound { url }),
        Ok((_, Ok(text))) => Ok(text@),
        Ok((_, Err(e))) => Err(ProbeErrorView::Http(e@)),
    }
}

/// Judges what a fetch for a probe came to.
pub fn judge_fetch(fetched: Fetched, url: &str) -> (res: Result<String, ProbeError>)
    ensures
        outcome::of(res) == probe_text(fetched, url@),
{
    match fetched {
        Err(e) => {
            let missing = match &e {
                ConnectorError::UnexpectedStatus { status, .. } => *status == 404,
                _ => false,
            };
            if missing {
                Err(ProbeError::NotFound { url: url.to_owned() })
            } else {
                Err(ProbeError::Http(e.message()))
            }
        },
        Ok((status, body)) => if status == 404 {
            Err(ProbeError::NotFound { url: url.to_owned() })
        } else {
            match body {
                Ok(text) => Ok(text),
                Err(e) => Err(ProbeError::Http(e)),
            }
        },
    }
}

/// Why a dataset could not be probed.
pub open spec fn failure_message(e: ProbeErrorView, dataset_id: Seq<char>) -> Seq<char> {
    match e {
        ProbeErrorView::NotFound { url } => "dataset "@ + dataset_id + " not found: "@ + url,
        _ => "probe error for dataset "@ + dataset_id + ": "@ + e.message(),
    }
}

/// What the `probe` command prints and returns: 0 for a usable dataset, 1 for
/// any other, 2 where the probe failed.
pub open spec fn report_of(
    outcome: Result<ProbeResultView, ProbeErrorView>,
    args: ProbeArgsView,
) -> ProbeReportView {
    match outcome {
        Err(e) => {
            let message = failure_message(e, args.dataset_id);
            if args.json {
                ProbeReportView {
                    code: 2,
                    stdout: Seq::empty(),
                    stderr: Seq::empty(),
                    json: Some(
                        JsonOutputView { verdict: "RED"@, reason: message, draft: None },
                    ),
                }
            } else {
                ProbeReportView {
                    code: 2,
                    stdout: Seq::empty(),
                    stderr: seq!["RED: "@ + message],
                    json: None,
                }
            }
        },
        Ok(result) => {
            let green = result.verdict == Verdict::Green;
            ProbeReportView {
                code: if green {
                    0
                } else {
                    1
                },
                stdout: if green && !args.json {
                    seq!["# GREEN: "@ + result.reason, ""@, toml_entry(result)]
                } else {
                    Seq::empty()
                },
                stderr: if !green && !args.json {
                    seq!["RED: "@ + result.reason]
                } else {
                    Seq::empty()
                },
                json: if args.json {
                    Some(output_of(result))
                } else {
                    None
                },
            }
        },
    }
}

/// What the `probe` command prints and returns.
pub fn report_probe(outcome: &Result<ProbeResult, ProbeError>, args: &ProbeArgs) -> (res:
    ProbeReport)
    ensures
        res.deep_view() == report_of(outcome::of(*outcome), args.deep_view()),
{
    let mut stdout: Vec<String> = Vec::new();
    let mut stderr: Vec<String> = Vec::new();
    let mut json: Option<JsonOutput> = None;
    let code: i32 = match outcome {
        Err(e) => {
            let message = match e {
                ProbeError::NotFound { url } => "dataset ".to_owned().concat(
                    &args.dataset_id,
                ).concat(" not found: ").concat(url),
                _ => "probe error for dataset ".to_owned().concat(&args.dataset_id).concat(
                    ": ",
                ).concat(&e.message()),
            };
            if args.json {
                json = Some(
                    JsonOutput { verdict: "RED".to_owned(), reason: message, draft: None },
                );
            } else {
                stderr.push("RED: ".to_owned().concat(&message));
            }
            2
        },
        Ok(result) => {
            if args.json {
                json = Some(json_output(result));
            } else {
                match result.verdict {
                    Verdict::Green => {
                        stdout.push("# GREEN: ".to_owned().concat(&result.reason));
                        stdout.push("".to_owned());
                        stdout.push(format_green_toml(result));
                    },
                    Verdict::Red => {
                        stderr.push("RED: ".to_owned().concat(&result.reason));
                    },
                }
            }
            match result.verdict {
                Verdict::Green => 0,
                Verdict::Red => 1,
            }
        },
    };
    let res = ProbeReport { code, stdout, stderr, json };
    proof {
        let want = report_of(outcome::of(*outcome), args.deep_view());
        assert(res.stdout.deep_view() =~= want.stdout);
        assert(res.stderr.deep_view() =~= want.stderr);
    }
    res
}

// ---------------------------------------------------------------------------
// Laws
// ---------------------------------------------------------------------------

/// A fit is the place of a column that fits.
proof fn lemma_first_fit_fits(
    columns: Seq<SodaColumnView>,
    claimed: Seq<Seq<char>>,
    keyword: Seq<char>,
    loose: bool,
)
    ensures
        first_fit(columns, claimed, keyword, loose) matches Some(i) ==> 0 <= i < columns.len()
            && fits(columns[i], claimed, keyword, loose),
    decreases columns.len(),
{
    if columns.len() > 0 {
        lemma_first_fit_fits(columns.drop_last(), claimed, keyword, loose);
    }
}

proof fn lemma_keyword_fit_is_free(
    columns: Seq<SodaColumnView>,
    claimed: Seq<Seq<char>>,
    keywords: Seq<Seq<char>>,
    loose: bool,
)
    ensures
        keyword_fit(columns, claimed, keywords, loose) matches Some(i) ==> 0 <= i < columns.len()
            && !claimed.contains(columns[i].field_name),
    decreases keywords.len(),
{
    if keywords.len() > 0 {
        lemma_keyword_fit_is_free(columns, claimed, keywords.drop_last(), loose);
        lemma_first_fit_fits(columns, claimed, keywords.last(), loose);
    }
}

proof fn lemma_claimed(picks: Seq<Option<MappedColumnView>>, i: int)
    requires
        0 <= i < picks.len(),
        picks[i] is Some,
    ensures
        claimed_by(picks).contains(picks[i]->0.source_col),
    decreases picks.len(),
{
    let before = claimed_by(picks.drop_last());
    if i == picks.len() - 1 {
        assert(claimed_by(picks).last() == picks[i]->0.source_col);
    } else {
        assert(picks.drop_last()[i] == picks[i]);
        lemma_claimed(picks.drop_last(), i);
        let k = choose|k: int|
            0 <= k < before.len() && before[k] == picks[i]->0.source_col;
        assert(claimed_by(picks)[k] == picks[i]->0.source_col);
    }
}

/// The command that comes with a candidate is ready to run: its words ask for a
/// probe of the candidate's dataset, in the candidate's family.
pub proof fn a_candidates_command_runs(family: CandidateFamily, base: Seq<char>, id: Seq<char>)
    requires
        text::is_word(base),
        text::is_word(id),
    ensures
        ({
            let words = text::words_of(discover::probe_command(family, base, id));
            &&& cli::invocation(words) == InvocationView::Probe(words.skip(2))
            &&& probe_args(words.skip(2)) == Ok::<ProbeArgsView, Seq<char>>(
                ProbeArgsView {
                    family,
                    domain: base,
                    dataset_id: id,
                    source_name: text::replaced_all(id, '-', '_'),
                    json: false,
                },
            )
        }),
{
    reveal_strlit("homeward probe --family ");
    reveal_strlit("homeward");
    reveal_strlit("probe");
    reveal_strlit("--family");
    reveal_strlit("socrata");
    reveal_strlit("opendatasoft");
    reveal_strlit("connectors");
    reveal_strlit(" ");
    let empty = Seq::<char>::empty();
    let s1 = empty + "homeward"@ + " "@;
    let s2 = s1 + "probe"@ + " "@;
    let s3 = s2 + "--family"@ + " "@;
    let s4 = s3 + family.name() + " "@;
    let s5 = s4 + base + " "@;
    text::next_word(empty, "homeward"@);
    text::next_word(s1, "probe"@);
    text::next_word(s2, "--family"@);
    text::next_word(s3, family.name());
    text::next_word(s4, base);
    text::next_word(s5, id);
    assert(s3 =~= "homeward probe --family "@);
    let words = text::words_of(discover::probe_command(family, base, id));
    assert(words =~= seq!["homeward"@, "probe"@, "--family"@, family.name(), base, id]);
    let args = words.skip(2);
    assert(args =~= seq!["--family"@, family.name(), base, id]);
    assert("probe"@.len() != "connectors"@.len());
    assert("socrata"@.len() != "opendatasoft"@.len());
    assert(family_named(family.name()) == Ok::<CandidateFamily, Seq<char>>(family));
}

/// No column serves two slots: each slot chooses among the columns that no
/// earlier slot has claimed, and every choice is one of the dataset's columns.
pub proof fn no_column_serves_two_slots(columns: Seq<SodaColumnView>, row: Json, n: nat)
    requires
        n <= 11,
    ensures
        picks_of(columns, row, n).len() == n,
        forall|i: int, j: int|
            0 <= i < j < n && (#[trigger] picks_of(columns, row, n)[i]) is Some && (
            #[trigger] picks_of(columns, row, n)[j]) is Some ==> picks_of(
                columns,
                row,
                n,
            )[i]->0.source_col != picks_of(columns, row, n)[j]->0.source_col,
        forall|i: int|
            0 <= i < n && (#[trigger] picks_of(columns, row, n)[i]) is Some ==> exists|c: int|
                0 <= c < columns.len() && (#[trigger] columns[c]).field_name == picks_of(
                    columns,
                    row,
                    n,
                )[i]->0.source_col,
    decreases n,
{
    if n > 0 {
        let before = picks_of(columns, row, (n - 1) as nat);
        let picks = picks_of(columns, row, n);
        let slot = SLOTS@[n - 1]@;
        let claimed = claimed_by(before);
        no_column_serves_two_slots(columns, row, (n - 1) as nat);
        lemma_keyword_fit_is_free(columns, claimed, keywords_of(slot), false);
        lemma_keyword_fit_is_free(columns, claimed, keywords_of(slot), true);
        assert forall|i: int, j: int|
            0 <= i < j < n && (#[trigger] picks[i]) is Some && (#[trigger] picks[j])
                is Some implies picks[i]->0.source_col != picks[j]->0.source_col by {
            assert(picks[i] == before[i]);
            if j < n - 1 {
                assert(picks[j] == before[j]);
            } else {
                lemma_claimed(before, i);
            }
        }
        assert forall|i: int| 0 <= i < n && (#[trigger] picks[i]) is Some implies exists|c: int|
            0 <= c < columns.len() && (#[trigger] columns[c]).field_name == picks[i]->0.source_col
            by {
            if i < n - 1 {
                assert(picks[i] == before[i]);
            } else {
                let c = best_fit(slot, columns, claimed)->0;
                assert(columns[c].field_name == picks[i]->0.source_col);
            }
        }
    }
}

/// Earlier choices do not depend on how many slots follow.
proof fn lemma_picks_prefix(columns: Seq<SodaColumnView>, row: Json, m: nat, n: nat)
    requires
        m <= n,
    ensures
        picks_of(columns, row, m).len() == m,
        picks_of(columns, row, n).len() == n,
        forall|i: int|
            0 <= i < m ==> picks_of(columns, row, m)[i] == #[trigger] picks_of(columns, row, n)[i],
    decreases n,
{
    if m < n {
        lemma_picks_prefix(columns, row, m, (n - 1) as nat);
    } else if n > 0 {
        lemma_picks_prefix(columns, row, (n - 1) as nat, (n - 1) as nat);
    }
}

/// A green verdict is owed exactly to a dataset with an identifier column, a
/// species column, and an intake column that a stray value was observed for;
/// its draft is then a whole column map.
pub proof fn green_means_usable(
    columns: Seq<SodaColumnView>,
    row: Json,
    domain: Seq<char>,
    dataset_id: Seq<char>,
    source_name: Seq<char>,
)
    ensures
        ({
            let result = probe_result(columns, row, domain, dataset_id, source_name);
            let draft = draft_of(columns, row);
            &&& result.verdict == Verdict::Green <==> {
                &&& columns.len() > 0
                &&& draft.animal_id() is Some
                &&& draft.animal_type() is Some
                &&& draft.intake_type() is Some
                &&& stray_observed(row, draft.intake_type()->0.source_col)
            }
            &&& result.verdict == Verdict::Green ==> result.column_map == Some(draft)
                && draft.column_map() is Some
        }),
{
    lemma_picks_prefix(columns, row, 3, 11);
    lemma_picks_prefix(columns, row, 2, 3);
    assert(picks_of(columns, row, 3)[2] == picks_of(columns, row, 11)[2]);
    reveal_with_fuel(picks_of, 2);
    assert(SLOTS@[2]@ == "intake_type"@);
}

/// Without a sample no verdict is green.
pub proof fn no_sample_is_never_green(
    columns: Seq<SodaColumnView>,
    domain: Seq<char>,
    dataset_id: Seq<char>,
    source_name: Seq<char>,
)
    ensures
        probe_result(columns, Json::Null, domain, dataset_id, source_name).verdict == Verdict::Red,
{
    green_means_usable(columns, Json::Null, domain, dataset_id, source_name);
}

/// The slots of a column map, in the order in which they choose.
pub open spec fn documented_slot(n: int) -> Seq<char> {
    if n == 0 {
        "animal_id"@
    } else if n == 1 {
        "animal_type"@
    } else if n == 2 {
        "intake_type"@
    } else if n == 3 {
        "intake_date"@
    } else if n == 4 {
        "found_location"@
    } else if n == 5 {
        "chip_status"@
    } else if n == 6 {
        "kennel_status"@
    } else if n == 7 {
        "breed"@
    } else if n == 8 {
        "name"@
    } else if n == 9 {
        "color"@
    } else {
        "outcome_date"@
    }
}

/// The words that columns of each slot go by, most specific first.
pub open spec fn documented_words(n: int) -> Seq<Seq<char>> {
    if n == 0 {
        seq!["animal_id"@, "animalid"@, "animal_number"@, "id"@]
    } else if n == 1 {
        seq!["animal_type"@, "animaltype"@, "species"@, "type"@]
    } else if n == 2 {
        seq![
            "intake_type"@,
            "intaketype"@,
            "intake_subtype"@,
            "intake_condition"@,
            "entry_reason"@,
        ]
    } else if n == 3 {
        seq![
            "intake_date"@,
            "intakedate"@,
            "datetime"@,
            "intake_datetime"@,
            "date_intake"@,
            "entry_date"@,
        ]
    } else if n == 4 {
        seq![
            "found_location"@,
            "foundlocation"@,
            "location_found"@,
            "found_address"@,
            "where_found"@,
        ]
    } else if n == 5 {
        seq!["chip_status"@, "chipstatus"@, "microchip"@, "chip"@]
    } else if n == 6 {
        seq!["kennel_status"@, "kennelstatus"@, "status"@, "custody_status"@]
    } else if n == 7 {
        seq!["breed"@, "primary_breed"@, "breed_primary"@]
    } else if n == 8 {
        seq!["name"@, "animal_name"@, "pet_name"@]
    } else if n == 9 {
        seq!["color"@, "colour"@, "primary_color"@]
    } else {
        seq!["outcome_date"@, "outcomedate"@, "outcome_datetime"@, "date_outcome"@]
    }
}

/// Whether a column is left over for slot `n`: no earlier slot holds it.
pub open spec fn left_for(col: SodaColumnView, draft: DraftView, n: int) -> bool {
    forall|m: int|
        0 <= m < n ==> ((#[trigger] draft.columns[m]) matches Some(mc) ==> mc.source_col
            != col.field_name)
}

/// Whether a column goes by a word: its field name is the word, in any case of
/// its letters.
pub open spec fn goes_by(col: SodaColumnView, word: Seq<char>) -> bool {
    text::lowercase(col.field_name) == word
}

/// Whether a column speaks of a word: one of its two names has it as a part, in
/// any case of its letters.
pub open spec fn speaks_of(col: SodaColumnView, word: Seq<char>) -> bool {
    text::has(text::lowercase(col.field_name), word) || text::has(text::lowercase(col.name), word)
}

/// Whether column `c` is left over for slot `n` and goes by the slot's word `k`.
pub open spec fn exact_at(
    columns: Seq<SodaColumnView>,
    draft: DraftView,
    n: int,
    k: int,
    c: int,
) -> bool {
    &&& 0 <= k < documented_words(n).len()
    &&& 0 <= c < columns.len()
    &&& left_for(columns[c], draft, n)
    &&& goes_by(columns[c], documented_words(n)[k])
}

/// Whether column `c` is left over for slot `n` and speaks of the slot's word `k`.
pub open spec fn loose_at(
    columns: Seq<SodaColumnView>,
    draft: DraftView,
    n: int,
    k: int,
    c: int,
) -> bool {
    &&& 0 <= k < documented_words(n).len()
    &&& 0 <= c < columns.len()
    &&& left_for(columns[c], draft, n)
    &&& speaks_of(columns[c], documented_words(n)[k])
}

proof fn lemma_documented(n: int)
    requires
        0 <= n < 11,
    ensures
        SLOTS@[n]@ == documented_slot(n),
        keywords_of(SLOTS@[n]@) == documented_words(n),
{
    each_slot_has_a_place(n);
}

proof fn lemma_claimed_only(picks: Seq<Option<MappedColumnView>>, x: Seq<char>)
    requires
        claimed_by(picks).contains(x),
    ensures
        exists|i: int|
            0 <= i < picks.len() && (#[trigger] picks[i]) is Some && picks[i]->0.source_col == x,
    decreases picks.len(),
{
    if picks.len() > 0 {
        let before = claimed_by(picks.drop_last());
        if before.contains(x) {
            lemma_claimed_only(picks.drop_last(), x);
            let i = choose|i: int|
                0 <= i < picks.drop_last().len() && (#[trigger] picks.drop_last()[i]) is Some
                    && picks.drop_last()[i]->0.source_col == x;
            assert(picks[i] == picks.drop_last()[i]);
        } else {
            let j = choose|j: int|
                0 <= j < claimed_by(picks).len() && claimed_by(picks)[j] == x;
            if j < before.len() {
                assert(before[j] == x);
            }
            assert(picks[picks.len() - 1] is Some);
        }
    }
}

proof fn lemma_first_fit_is_first(
    columns: Seq<SodaColumnView>,
    claimed: Seq<Seq<char>>,
    keyword: Seq<char>,
    loose: bool,
)
    ensures
        match first_fit(columns, claimed, keyword, loose) {
            Some(i) => {
                &&& 0 <= i < columns.len()
                &&& fits(columns[i], claimed, keyword, loose)
                &&& forall|j: int|
                    0 <= j < i ==> !fits(#[trigger] columns[j], claimed, keyword, loose)
            },
            None => forall|j: int|
                0 <= j < columns.len() ==> !fits(#[trigger] columns[j], claimed, keyword, loose),
        },
    decreases columns.len(),
{
    if columns.len() > 0 {
        let front = columns.drop_last();
        lemma_first_fit_is_first(front, claimed, keyword, loose);
        assert forall|j: int| 0 <= j < front.len() implies #[trigger] columns[j] == front[j] by {}
    }
}

proof fn lemma_keyword_fit_is_first(
    columns: Seq<SodaColumnView>,
    claimed: Seq<Seq<char>>,
    keywords: Seq<Seq<char>>,
    loose: bool,
)
    ensures
        match keyword_fit(columns, claimed, keywords, loose) {
            Some(i) => exists|k: int|
                {
                    &&& 0 <= k < keywords.len()
                    &&& first_fit(columns, claimed, #[trigger] keywords[k], loose) == Some(i)
                    &&& forall|h: int|
                        0 <= h < k ==> first_fit(columns, claimed, #[trigger] keywords[h], loose)
                            is None
                },
            None => forall|h: int|
                0 <= h < keywords.len() ==> first_fit(
                    columns,
                    claimed,
                    #[trigger] keywords[h],
                    loose,
                ) is None,
        },
    decreases keywords.len(),
{
    if keywords.len() > 0 {
        let front = keywords.drop_last();
        lemma_keyword_fit_is_first(columns, claimed, front, loose);
        assert forall|h: int| 0 <= h < front.len() implies #[trigger] keywords[h] == front[h] by {}
        match keyword_fit(columns, claimed, front, loose) {
            Some(i) => {
                let k = choose|k: int|
                    {
                        &&& 0 <= k < front.len()
                        &&& first_fit(columns, claimed, #[trigger] front[k], loose) == Some(i)
                        &&& forall|h: int|
                            0 <= h < k ==> first_fit(columns, claimed, #[trigger] front[h], loose)
                                is None
                    };
                assert(keywords[k] == front[k]);
            },
            None => {
                assert(keywords[keywords.len() - 1] == keywords.last());
            },
        }
    }
}

proof fn lemma_left_is_unclaimed(columns: Seq<SodaColumnView>, row: Json, n: int, col: SodaColumnView)
    requires
        0 <= n < 11,
    ensures
        left_for(col, draft_of(columns, row), n) == !claimed_by(
            picks_of(columns, row, n as nat),
        ).contains(col.field_name),
{
    let before = picks_of(columns, row, n as nat);
    let draft = draft_of(columns, row);
    lemma_picks_prefix(columns, row, n as nat, 11);
    assert forall|m: int| 0 <= m < n implies #[trigger] draft.columns[m] == before[m] by {}
    if claimed_by(before).contains(col.field_name) {
        lemma_claimed_only(before, col.field_name);
        let i = choose|i: int|
            0 <= i < before.len() && (#[trigger] before[i]) is Some && before[i]->0.source_col
                == col.field_name;
        assert(draft.columns[i] == before[i]);
    } else {
        assert forall|m: int| 0 <= m < n implies ((#[trigger] draft.columns[m]) matches Some(mc)
            ==> mc.source_col != col.field_name) by {
            if before[m] is Some {
                lemma_claimed(before, m);
            }
        }
    }
}

/// Each slot holds the column that its words single out among those that no
/// earlier slot holds: the first column that goes by the most specific word which
/// any goes by; where none goes by any, the first that speaks of the most specific
/// word which any speaks of; and nothing where none does.
pub proof fn slots_hold_what_their_words_name(columns: Seq<SodaColumnView>, row: Json, n: int)
    requires
        0 <= n < 11,
    ensures
        ({
            let draft = draft_of(columns, row);
            &&& draft.columns.len() == 11
            &&& match draft.columns[n] {
                None => {
                    &&& forall|k: int, c: int| !#[trigger] exact_at(columns, draft, n, k, c)
                    &&& forall|k: int, c: int| !#[trigger] loose_at(columns, draft, n, k, c)
                },
                Some(mc) => {
                    &&& mc.slot == documented_slot(n)
                    &&& {
                        ||| exists|k: int, c: int|
                            {
                                &&& #[trigger] exact_at(columns, draft, n, k, c)
                                &&& mc.source_col == columns[c].field_name
                                &&& forall|h: int, b: int| #[trigger]
                                    exact_at(columns, draft, n, h, b) ==> k < h || (k == h && c
                                        <= b)
                            }
                        ||| {
                            &&& forall|h: int, b: int| !#[trigger] exact_at(columns, draft, n, h, b)
                            &&& exists|k: int, c: int|
                                {
                                    &&& #[trigger] loose_at(columns, draft, n, k, c)
                                    &&& mc.source_col == columns[c].field_name
                                    &&& forall|h: int, b: int| #[trigger]
                                        loose_at(columns, draft, n, h, b) ==> k < h || (k == h && c
                                            <= b)
                                }
                        }
                    }
                },
            }
        }),
{
    let draft = draft_of(columns, row);
    let before = picks_of(columns, row, n as nat);
    let claimed = claimed_by(before);
    let words = documented_words(n);
    lemma_documented(n);
    lemma_picks_prefix(columns, row, (n + 1) as nat, 11);
    lemma_picks_prefix(columns, row, n as nat, n as nat);
    assert(draft.columns[n] == picks_of(columns, row, (n + 1) as nat)[n]);
    assert forall|k: int, c: int|
        0 <= k < words.len() && 0 <= c < columns.len() implies #[trigger] exact_at(
        columns,
        draft,
        n,
        k,
        c,
    ) == fits(columns[c], claimed, words[k], false) by {
        lemma_left_is_unclaimed(columns, row, n, columns[c]);
    }
    assert forall|k: int, c: int|
        0 <= k < words.len() && 0 <= c < columns.len() implies #[trigger] loose_at(
        columns,
        draft,
        n,
        k,
        c,
    ) == fits(columns[c], claimed, words[k], true) by {
        lemma_left_is_unclaimed(columns, row, n, columns[c]);
    }
    lemma_keyword_fit_is_first(columns, claimed, words, false);
    lemma_keyword_fit_is_first(columns, claimed, words, true);
    assert forall|h: int| 0 <= h < words.len() implies match first_fit(
        columns,
        claimed,
        #[trigger] words[h],
        false,
    ) {
        Some(i) => {
            &&& exact_at(columns, draft, n, h, i)
            &&& forall|b: int| #[trigger] exact_at(columns, draft, n, h, b) ==> i <= b
        },
        None => forall|b: int| !#[trigger] exact_at(columns, draft, n, h, b),
    } by {
        lemma_first_fit_is_first(columns, claimed, words[h], false);
    }
    assert forall|h: int| 0 <= h < words.len() implies match first_fit(
        columns,
        claimed,
        #[trigger] words[h],
        true,
    ) {
        Some(i) => {
            &&& loose_at(columns, draft, n, h, i)
            &&& forall|b: int| #[trigger] loose_at(columns, draft, n, h, b) ==> i <= b
        },
        None => forall|b: int| !#[trigger] loose_at(columns, draft, n, h, b),
    } by {
        lemma_first_fit_is_first(columns, claimed, words[h], true);
    }
    match keyword_fit(columns, claimed, words, false) {
        Some(i) => {
            let k = choose|k: int|
                {
                    &&& 0 <= k < words.len()
                    &&& first_fit(columns, claimed, #[trigger] words[k], false) == Some(i)
                    &&& forall|h: int|
                        0 <= h < k ==> first_fit(columns, claimed, #[trigger] words[h], false)
                            is None
                };
            assert(exact_at(columns, draft, n, k, i));
            assert forall|h: int, b: int| #[trigger] exact_at(columns, draft, n, h, b) implies k
                < h || (k == h && i <= b) by {
                assert(0 <= h < words.len());
                assert(words[h] == words[h]);
            }
        },
        None => {
            assert forall|h: int, b: int| !#[trigger] exact_at(columns, draft, n, h, b) by {
                if 0 <= h < words.len() {
                    assert(first_fit(columns, claimed, words[h], false) is None);
                }
            }
            match keyword_fit(columns, claimed, words, true) {
                Some(i) => {
                    let k = choose|k: int|
                        {
                            &&& 0 <= k < words.len()
                            &&& first_fit(columns, claimed, #[trigger] words[k], true) == Some(i)
                            &&& forall|h: int|
                                0 <= h < k ==> first_fit(columns, claimed, #[trigger] words[h], true)
                                    is None
                        };
                    assert(loose_at(columns, draft, n, k, i));
                    assert forall|h: int, b: int| #[trigger]
                        loose_at(columns, draft, n, h, b) implies k < h || (k == h && i <= b) by {
                        assert(0 <= h < words.len());
                        assert(words[h] == words[h]);
                    }
                },
                None => {
                    assert forall|h: int, b: int| !#[trigger] loose_at(columns, draft, n, h, b) by {
                        if 0 <= h < words.len() {
                            assert(first_fit(columns, claimed, words[h], true) is None);
                        }
                    }
                },
            }
        },
    }
}

/// A column that is held is marked as confirmed where the sample bears it out:
/// the intake type by a stray value in it or in any column that speaks of the
/// intake, any other slot by a value of whatever kind. It is guessed otherwise.
pub proof fn confirmed_means_observed(columns: Seq<SodaColumnView>, row: Json, n: int)
    requires
        0 <= n < 11,
    ensures
        draft_of(columns, row).columns[n] matches Some(mc) ==> {
            let observed = if n == 2 {
                ||| json::cell_of(row, mc.source_col) matches Some(v) && stray::is_stray(v)
                ||| exists|k: Seq<char>|
                    text::has(text::lowercase(k), "intake"@) && ((#[trigger] json::cell_of(row, k))
                        matches Some(v) && stray::is_stray(v))
            } else {
                json::member(row, mc.source_col) is Some
            };
            mc.confidence == (if observed {
                Confidence::Confirmed
            } else {
                Confidence::Guessed
            })
        },
{
    lemma_documented(n);
    lemma_documented(2);
    each_slot_has_a_place(n);
    each_slot_has_a_place(2);
    lemma_picks_prefix(columns, row, (n + 1) as nat, 11);
    lemma_picks_prefix(columns, row, n as nat, n as nat);
    assert(draft_of(columns, row).columns[n] == picks_of(columns, row, (n + 1) as nat)[n]);
}

/// A column by the name of `datetime` tells when an animal came in, where no
/// column goes by `intake_date` or `intakedate` and no earlier slot holds it.
pub proof fn datetime_is_the_intake(columns: Seq<SodaColumnView>, row: Json, c: int)
    requires
        0 <= c < columns.len(),
        columns[c].field_name == "datetime"@,
        forall|b: int|
            0 <= b < columns.len() ==> !goes_by(#[trigger] columns[b], "intake_date"@) && !goes_by(
                columns[b],
                "intakedate"@,
            ),
        left_for(columns[c], draft_of(columns, row), 3),
    ensures
        draft_of(columns, row).columns[3] matches Some(mc) && text::lowercase(mc.source_col)
            == "datetime"@,
{
    let draft = draft_of(columns, row);
    slots_hold_what_their_words_name(columns, row, 3);
    reveal_strlit("datetime");
    assert(text::lowercase("datetime"@) =~= "datetime"@);
    assert(goes_by(columns[c], documented_words(3)[2]));
    assert(exact_at(columns, draft, 3, 2, c));
    assert forall|h: int, b: int| #[trigger] exact_at(columns, draft, 3, h, b) implies h >= 2 by {
        if h == 0 {
            assert(goes_by(columns[b], "intake_date"@));
        } else if h == 1 {
            assert(goes_by(columns[b], "intakedate"@));
        }
    }
    let mc = draft.columns[3]->0;
    let (k, b) = choose|k: int, b: int|
        {
            &&& #[trigger] exact_at(columns, draft, 3, k, b)
            &&& mc.source_col == columns[b].field_name
            &&& forall|h: int, a: int| #[trigger]
                exact_at(columns, draft, 3, h, a) ==> k < h || (k == h && b <= a)
        };
    assert(k == 2);
    assert(documented_words(3)[2] == "datetime"@);
}

/// No column is taken for the outcome date whose names do not speak of an outcome.
pub proof fn outcome_dates_speak_of_outcomes(columns: Seq<SodaColumnView>, row: Json)
    ensures
        draft_of(columns, row).columns[10] matches Some(mc) ==> exists|c: int|
            0 <= c < columns.len() && (#[trigger] columns[c]).field_name == mc.source_col
                && speaks_of(columns[c], "outcome"@),
{
    let draft = draft_of(columns, row);
    slots_hold_what_their_words_name(columns, row, 10);
    if draft.columns[10] is Some {
        let mc = draft.columns[10]->0;
        let words = documented_words(10);
        reveal_strlit("outcome");
        reveal_strlit("outcome_date");
        reveal_strlit("outcomedate");
        reveal_strlit("outcome_datetime");
        reveal_strlit("date_outcome");
        assert("outcome_date"@.subrange(0, 7) =~= "outcome"@);
        assert("outcomedate"@.subrange(0, 7) =~= "outcome"@);
        assert("outcome_datetime"@.subrange(0, 7) =~= "outcome"@);
        assert("date_outcome"@.subrange(5, 12) =~= "outcome"@);
        assert forall|k: int| 0 <= k < words.len() implies text::has(
            #[trigger] words[k],
            "outcome"@,
        ) by {
            if k < 3 {
                assert(text::occurs_at(words[k], "outcome"@, 0));
            } else {
                assert(text::occurs_at(words[k], "outcome"@, 5));
            }
        }
        if exists|k: int, c: int| #[trigger]
            exact_at(columns, draft, 10, k, c) && mc.source_col == columns[c].field_name {
            let (k, c) = choose|k: int, c: int| #[trigger]
                exact_at(columns, draft, 10, k, c) && mc.source_col == columns[c].field_name;
            assert(text::has(words[k], "outcome"@));
            assert(columns[c].field_name == mc.source_col && speaks_of(columns[c], "outcome"@));
        } else {
            let (k, c) = choose|k: int, c: int| #[trigger]
                loose_at(columns, draft, 10, k, c) && mc.source_col == columns[c].field_name;
            assert(text::has(words[k], "outcome"@));
            text::parts_of_parts(text::lowercase(columns[c].field_name), words[k], "outcome"@);
            text::parts_of_parts(text::lowercase(columns[c].name), words[k], "outcome"@);
            assert(columns[c].field_name == mc.source_col && speaks_of(columns[c], "outcome"@));
        }
    }
}

/// One more entry of a metadata document is one more column, behind the others,
/// where it names a field that is not the system's own: under `fieldName`, or
/// under `field_name` where that is missing. The column is called by the entry's
/// `name`, or by the field where it has none.
pub proof fn one_more_entry_is_one_more_column(
    entries: Seq<Json>,
    members: Map<Seq<char>, Json>,
    field: Seq<char>,
    label: Seq<char>,
)
    ensures
        ({
            let before = columns_of(Json::List(entries));
            let after = columns_of(Json::List(entries.push(Json::Object(members))));
            let named = |key: Seq<char>, s: Seq<char>|
                members.dom().contains(key) && members[key] == Json::Text(s);
            let of_field = named("fieldName"@, field) || (!members.dom().contains("fieldName"@)
                && named("field_name"@, field));
            let system = field.len() > 0 && field[0] == ':';
            &&& of_field && system ==> after == before
            &&& of_field && !system && named("name"@, label) ==> after == before.push(
                SodaColumnView { field_name: field, name: label },
            )
            &&& of_field && !system && !members.dom().contains("name"@) ==> after == before.push(
                SodaColumnView { field_name: field, name: field },
            )
            &&& !members.dom().contains("fieldName"@) && !members.dom().contains("field_name"@)
                ==> after == before
        }),
        columns_of(Json::List(Seq::empty())).len() == 0,
        columns_of(Json::Object(members)).len() == 0,
{
    assert(entries.push(Json::Object(members)).drop_last() =~= entries);
    reveal_strlit(":");
    assert(":"@.len() == 1 && ":"@[0] == ':');
    if field.len() > 0 && field[0] == ':' {
        assert(field.subrange(0, 1) =~= ":"@);
        assert(":"@.is_prefix_of(field));
    }
}

/// A draft holds each column under its own slot, and the column map that comes of
/// it names, for each slot, the field of the column there; it is whole where the
/// identifier, the species and the intake type are there.
pub proof fn slots_keep_their_columns(draft: ColumnMapDraft)
    ensures
        ({
            let v = draft.deep_view();
            let m = v.column_map();
            let field = |c: Option<MappedColumn>| match c {
                Some(mc) => Some(mc.source_col@),
                None => None,
            };
            &&& v.columns.len() == 11
            &&& m is Some <==> draft.animal_id is Some && draft.animal_type is Some
                && draft.intake_type is Some
            &&& m is Some ==> {
                &&& Some(m->0.animal_id) == field(draft.animal_id)
                &&& Some(m->0.animal_type) == field(draft.animal_type)
                &&& Some(m->0.intake_type) == field(draft.intake_type)
                &&& m->0.intake_date == field(draft.intake_date)
                &&& m->0.found_location == field(draft.found_location)
                &&& m->0.chip_status == field(draft.chip_status)
                &&& m->0.kennel_status == field(draft.kennel_status)
                &&& m->0.breed == field(draft.breed)
                &&& m->0.name == field(draft.name)
                &&& m->0.color == field(draft.color)
                &&& m->0.outcome_date == field(draft.outcome_date)
            }
            &&& v.columns[0] == draft.animal_id.deep_view()
            &&& v.columns[1] == draft.animal_type.deep_view()
            &&& v.columns[2] == draft.intake_type.deep_view()
            &&& v.columns[3] == draft.intake_date.deep_view()
            &&& v.columns[4] == draft.found_location.deep_view()
            &&& v.columns[5] == draft.chip_status.deep_view()
            &&& v.columns[6] == draft.kennel_status.deep_view()
            &&& v.columns[7] == draft.breed.deep_view()
            &&& v.columns[8] == draft.name.deep_view()
            &&& v.columns[9] == draft.color.deep_view()
            &&& v.columns[10] == draft.outcome_date.deep_view()
        }),
{
}

/// A dataset is refused for the first thing that it lacks: columns, an identifier,
/// a species, an intake type, a stray value in it; and the reason says which.
pub proof fn reasons_name_what_is_missing(
    columns: Seq<SodaColumnView>,
    row: Json,
    domain: Seq<char>,
    id: Seq<char>,
    source_name: Seq<char>,
)
    ensures
        ({
            let result = probe_result(columns, row, domain, id, source_name);
            let draft = draft_of(columns, row);
            let lacks = |n: int| columns.len() > 0 && draft.columns[n] is None;
            let has = |n: int| columns.len() > 0 && draft.columns[n] is Some;
            &&& columns.len() == 0 ==> result.reason == "no columns returned from "@ + domain
                + "/api/views/"@ + id
                + "/columns.json; dataset may not exist or may not be a SODA dataset"@
            &&& lacks(0) ==> result.reason == "no animal_id-like column found in dataset "@ + id
                + " on "@ + domain + "; cannot uniquely identify animals"@
            &&& has(0) && lacks(1) ==> result.reason
                == "no animal_type/species column found in dataset "@ + id
                + "; cannot filter dogs and cats"@
            &&& has(0) && has(1) && lacks(2) ==> result.reason
                == "no intake_type column found in dataset "@ + id
                + "; this appears to be an adoptable-only feed, not a stray-intake feed"@
            &&& has(0) && has(1) && has(2) && result.verdict == Verdict::Red ==> result.reason
                == "intake_type column found in dataset "@ + id
                + " but no STRAY/FOUND value observed in the sample; this may be an adoptable-only feed, not a stray-intake feed. Column guessed: "@
                + draft.columns[2]->0.source_col
            &&& result.verdict == Verdict::Green ==> result.reason == "dataset "@ + id + " on "@
                + domain
                + " has required columns (animal_id, animal_type, intake_type) with confirmed STRAY values"@
            &&& result.family == CandidateFamily::Socrata
            &&& result.domain == domain
            &&& result.dataset_id == id
            &&& result.source_name == source_name
            &&& result.column_map == if columns.len() == 0 {
                None
            } else {
                Some(draft)
            }
        }),
{
}

/// A portal's fields are judged as columns that go by their own names would be.
pub proof fn fields_are_judged_as_columns(
    fields: Seq<Seq<char>>,
    columns: Seq<SodaColumnView>,
    row: Json,
    base_url: Seq<char>,
    id: Seq<char>,
    source_name: Seq<char>,
)
    requires
        fields.len() > 0,
        columns.len() == fields.len(),
        forall|i: int|
            0 <= i < fields.len() ==> (#[trigger] columns[i]).field_name == fields[i]
                && columns[i].name == fields[i],
    ensures
        ({
            let judged = probe_result(columns, row, base_url, id, source_name);
            let result = ods_probe_result(fields, row, base_url, id, source_name);
            &&& result.family == CandidateFamily::OpenDataSoft
            &&& result == ProbeResultView { family: CandidateFamily::OpenDataSoft, ..judged }
        }),
{
    assert(columns_named(fields) =~= columns);
}

/// Only the reply to the first request fails a probe: where it is missing, the
/// dataset is named in place of the address; where it is no document, the
/// complaint is told; any other failure stands as it is. A sample that is no list
/// of rows, or an empty one, counts as no row.
pub proof fn probes_fail_by_their_columns(
    reply: Seq<char>,
    sample: Seq<char>,
    url: Seq<char>,
    e: Seq<char>,
    domain: Seq<char>,
    id: Seq<char>,
    name: Seq<char>,
)
    ensures
        probe_of(Err(ProbeErrorView::NotFound { url }), sample, domain, id, name) == Err::<
            ProbeResultView,
            ProbeErrorView,
        >(ProbeErrorView::NotFound { url: "dataset "@ + id + " on "@ + domain }),
        probe_of(Err(ProbeErrorView::Http(e)), sample, domain, id, name) == Err::<
            ProbeResultView,
            ProbeErrorView,
        >(ProbeErrorView::Http(e)),
        json::json_of(reply) matches Err(complaint) ==> probe_of(
            Ok(reply),
            sample,
            domain,
            id,
            name,
        ) == Err::<ProbeResultView, ProbeErrorView>(ProbeErrorView::Json(complaint)),
        json::json_of(reply) matches Ok(metadata) ==> {
            &&& json::json_of(sample) is Err ==> probe_of(Ok(reply), sample, domain, id, name)
                == Ok::<ProbeResultView, ProbeErrorView>(
                probe_result(columns_of(metadata), Json::Null, domain, id, name),
            )
            &&& json::json_of(sample) matches Ok(Json::List(rows)) ==> probe_of(
                Ok(reply),
                sample,
                domain,
                id,
                name,
            ) == Ok::<ProbeResultView, ProbeErrorView>(
                probe_result(
                    columns_of(metadata),
                    if rows.len() > 0 {
                        rows[0]
                    } else {
                        Json::Null
                    },
                    domain,
                    id,
                    name,
                ),
            )
        },
{
}

/// A status of 404 says that a dataset is not there, however the request ended; any
/// other reply with a text is taken, and the rest fails with its own complaint.
pub proof fn missing_datasets_are_told_by_status(
    status: u16,
    body: Result<String, String>,
    text: String,
    e: ConnectorError,
    url: Seq<char>,
)
    ensures
        probe_text(Ok((404, body)), url) == Err::<Seq<char>, ProbeErrorView>(
            ProbeErrorView::NotFound { url },
        ),
        status != 404 ==> probe_text(Ok((status, Ok(text))), url) == Ok::<
            Seq<char>,
            ProbeErrorView,
        >(text@),
        status != 404 ==> probe_text(Ok((status, Err(text))), url) == Err::<
            Seq<char>,
            ProbeErrorView,
        >(ProbeErrorView::Http(text@)),
        probe_text(Err(e), url) == Err::<Seq<char>, ProbeErrorView>(
            ProbeErrorView::NotFound { url },
        ) <==> (e matches ConnectorError::UnexpectedStatus { status, .. } && status == 404),
        !(e is UnexpectedStatus) ==> probe_text(Err(e), url) == Err::<Seq<char>, ProbeErrorView>(
            ProbeErrorView::Http(e.deep_view().message()),
        ),
{
}

/// The command exits with 0 for a green dataset, 1 for a red one and 2 where the
/// probe failed. With `--json` there is one document on the standard output and
/// no line; without it a green dataset's entry goes to the standard output, and
/// what is wrong with any other to the standard error.
pub proof fn reports_follow_the_verdict(
    result: ProbeResultView,
    e: ProbeErrorView,
    args: ProbeArgsView,
)
    ensures
        ({
            let told = report_of(Ok(result), args);
            let failed = report_of(Err(e), args);
            let why = match e {
                ProbeErrorView::NotFound { url } => "dataset "@ + args.dataset_id + " not found: "@
                    + url,
                ProbeErrorView::Http(m) => "probe error for dataset "@ + args.dataset_id + ": "@ + (
                "HTTP error: "@ + m),
                ProbeErrorView::Json(m) => "probe error for dataset "@ + args.dataset_id + ": "@ + (
                "JSON parse error: "@ + m),
            };
            &&& told.code == 0 <==> result.verdict == Verdict::Green
            &&& told.code == 1 <==> result.verdict == Verdict::Red
            &&& failed.code == 2
            &&& args.json ==> {
                &&& told.stdout.len() == 0 && told.stderr.len() == 0
                &&& failed.stdout.len() == 0 && failed.stderr.len() == 0
                &&& told.json is Some && told.json->0.reason == result.reason
                &&& told.json->0.verdict == "GREEN"@ <==> result.verdict == Verdict::Green
                &&& told.json->0.verdict == "RED"@ <==> result.verdict == Verdict::Red
                &&& failed.json == Some(
                    JsonOutputView { verdict: "RED"@, reason: why, draft: None },
                )
            }
            &&& !args.json ==> {
                &&& told.json is None && failed.json is None
                &&& result.verdict == Verdict::Green ==> told.stderr.len() == 0 && told.stdout
                    == seq!["# GREEN: "@ + result.reason, ""@, toml_entry(result)]
                &&& result.verdict == Verdict::Red ==> told.stdout.len() == 0 && told.stderr
                    == seq!["RED: "@ + result.reason]
                &&& failed.stdout.len() == 0
                &&& failed.stderr == seq!["RED: "@ + why]
            }
        }),
{
    reveal_strlit("GREEN");
    reveal_strlit("RED");
    assert("GREEN"@.len() == 5 && "RED"@.len() == 3);
}

/// A document for a green dataset holds its entry; one for a red dataset holds the
/// three required columns where all are there, and nothing where one is missing.
pub proof fn documents_hold_the_draft(result: ProbeResultView)
    ensures
        result.column_map is None ==> output_of(result).draft is None,
        result.column_map matches Some(draft) ==> {
            let held = output_of(result).draft;
            let whole = draft.columns[0] is Some && draft.columns[1] is Some && draft.columns[2]
                is Some;
            &&& result.verdict == Verdict::Green ==> (held matches Some(Json::Object(m))
                && m.dom() == set!["toml"@] && m["toml"@] == Json::Text(toml_entry(result)))
            &&& result.verdict == Verdict::Red && !whole ==> held is None
            &&& result.verdict == Verdict::Red && whole ==> (held matches Some(Json::Object(m))
                && m.dom() == set!["animal_id"@, "animal_type"@, "intake_type"@]
                && m["animal_id"@] == Json::Text(draft.columns[0]->0.source_col)
                && m["animal_type"@] == Json::Text(draft.columns[1]->0.source_col)
                && m["intake_type"@] == Json::Text(draft.columns[2]->0.source_col))
        },
{
    reveal_strlit("animal_id");
    reveal_strlit("animal_type");
    reveal_strlit("intake_type");
    assert("animal_id"@.len() == 9 && "animal_type"@[0] == 'a' && "intake_type"@[0] == 'i');
    assert("animal_type"@.len() == 11);
    let one = Map::<Seq<char>, Json>::empty().insert("toml"@, Json::Text(toml_entry(result)));
    assert(one.dom() =~= set!["toml"@]);
    if let Some(draft) = result.column_map {
        let held = output_of(result).draft;
        if let Some(Json::Object(m)) = held {
            if result.verdict == Verdict::Red {
                assert(m.dom() =~= set!["animal_id"@, "animal_type"@, "intake_type"@]);
            }
        }
    }
}

/// An entry names its family in the headers, the source, the portal (by domain or
/// by base URL) and the dataset, and each column by its slot, in the order of the
/// slots, with the confidence in it behind.
pub proof fn entries_name_what_was_found(result: ProbeResultView, draft: DraftView, n: int)
    requires
        result.column_map == Some(draft),
        0 <= n < 11,
    ensures
        toml_entry(result) == (match result.family {
            CandidateFamily::Socrata => "[["@ + "socrata"@ + "]]\n"@ + "name = "@ + text::quoted(
                result.source_name,
            ) + "\n"@ + "domain"@ + " = "@ + text::quoted(result.domain) + "\n"@ + "dataset_id = "@
                + text::quoted(result.dataset_id) + "\n"@ + "\n"@ + "["@ + "socrata"@
                + ".column_map]\n"@,
            CandidateFamily::OpenDataSoft => "[["@ + "opendatasoft"@ + "]]\n"@ + "name = "@
                + text::quoted(result.source_name) + "\n"@ + "base_url"@ + " = "@ + text::quoted(
                result.domain,
            ) + "\n"@ + "dataset_id = "@ + text::quoted(result.dataset_id) + "\n"@ + "\n"@ + "["@
                + "opendatasoft"@ + ".column_map]\n"@,
        }) + column_lines(draft, 11),
        column_lines(draft, 0).len() == 0,
        draft.columns[n] is None ==> column_lines(draft, (n + 1) as nat) == column_lines(
            draft,
            n as nat,
        ),
        draft.columns[n] matches Some(mc) ==> column_lines(draft, (n + 1) as nat) == column_lines(
            draft,
            n as nat,
        ) + (documented_slot(n) + " = "@ + text::quoted(mc.source_col) + "  # "@ + (
        if mc.confidence == Confidence::Confirmed {
            "confirmed"@
        } else {
            "guessed"@
        }) + "\n"@),
        result.family == CandidateFamily::Socrata || result.family
            == CandidateFamily::OpenDataSoft,
{
    assert(SLOTS@[n]@ == documented_slot(n));
}

proof fn lemma_probe_options_go_on(
    args: Seq<Seq<char>>,
    more: Seq<Seq<char>>,
    i: int,
    given: ProbeArgsView,
)
    requires
        0 <= i <= args.len(),
        probe_options(args, i, given) is Ok,
    ensures
        probe_options(args + more, i, given) == probe_options(
            args + more,
            args.len() as int,
            probe_options(args, i, given)->Ok_0,
        ),
    decreases args.len() - i,
{
    lemma_probe_words();
    let all = args + more;
    if i < args.len() {
        let arg = args[i];
        let value = args[i + 1];
        assert(all[i] == arg);
        if i + 1 < args.len() {
            assert(all[i + 1] == value);
        }
        if arg == "--name"@ {
            lemma_probe_options_go_on(
                args,
                more,
                i + 2,
                ProbeArgsView { source_name: value, ..given },
            );
        } else if arg == "--family"@ {
            let family = family_named(value)->Ok_0;
            lemma_probe_options_go_on(args, more, i + 2, ProbeArgsView { family, ..given });
        } else {
            lemma_probe_options_go_on(args, more, i + 1, ProbeArgsView { json: true, ..given });
        }
    }
}

proof fn lemma_probe_words()
    ensures
        "--name"@ != "--family"@ && "--name"@ != "--json"@ && "--family"@ != "--json"@,
        "socrata"@ != "opendatasoft"@,
{
    reveal_strlit("--name");
    reveal_strlit("--family");
    reveal_strlit("--json");
    reveal_strlit("socrata");
    reveal_strlit("opendatasoft");
    assert("--name"@[2] == 'n' && "--family"@[2] == 'f' && "--json"@[2] == 'j');
    assert("socrata"@[0] == 's' && "opendatasoft"@[0] == 'o');
}

/// Each option of the command adds what it says to what the arguments before it say
/// and leaves the rest as it is. Two arguments that are no options are the portal
/// and the dataset, whose name with underscores for hyphens names the source; the
/// family is Socrata's unless it is given, in front or behind.
pub proof fn probe_options_say_one_thing_each(args: Seq<Seq<char>>, value: Seq<char>)
    requires
        probe_args(args) is Ok,
    ensures
        ({
            let given = probe_args(args)->Ok_0;
            let with = |more: Seq<Seq<char>>| probe_args(args + more);
            &&& with(seq!["--json"@]) == Ok::<ProbeArgsView, Seq<char>>(
                ProbeArgsView { json: true, ..given },
            )
            &&& with(seq!["--name"@, value]) == Ok::<ProbeArgsView, Seq<char>>(
                ProbeArgsView { source_name: value, ..given },
            )
            &&& with(seq!["--family"@, "socrata"@]) == Ok::<ProbeArgsView, Seq<char>>(
                ProbeArgsView { family: CandidateFamily::Socrata, ..given },
            )
            &&& with(seq!["--family"@, "opendatasoft"@]) == Ok::<ProbeArgsView, Seq<char>>(
                ProbeArgsView { family: CandidateFamily::OpenDataSoft, ..given },
            )
            &&& with(seq!["--name"@]) == Err::<ProbeArgsView, Seq<char>>("--name requires a value"@)
            &&& with(seq!["--family"@]) == Err::<ProbeArgsView, Seq<char>>(
                "--family requires a value"@,
            )
        }),
{
    lemma_probe_words();
    let ahead = args[0] == "--family"@;
    let at: int = if ahead {
        2
    } else {
        0
    };
    let family = if ahead {
        family_named(args[1])->Ok_0
    } else {
        CandidateFamily::Socrata
    };
    let begun = ProbeArgsView {
        family,
        domain: args[at],
        dataset_id: args[at + 1],
        source_name: text::replaced_all(args[at + 1], '-', '_'),
        json: false,
    };
    lemma_one_probe_option(args, seq!["--json"@], at, begun);
    lemma_one_probe_option(args, seq!["--name"@, value], at, begun);
    lemma_one_probe_option(args, seq!["--family"@, "socrata"@], at, begun);
    lemma_one_probe_option(args, seq!["--family"@, "opendatasoft"@], at, begun);
    lemma_one_probe_option(args, seq!["--name"@], at, begun);
    lemma_one_probe_option(args, seq!["--family"@], at, begun);
    reveal_with_fuel(probe_options, 2);
}

proof fn lemma_one_probe_option(
    args: Seq<Seq<char>>,
    more: Seq<Seq<char>>,
    at: int,
    begun: ProbeArgsView,
)
    requires
        at == 0 || at == 2,
        args.len() >= at + 2,
        at == 2 <==> args[0] == "--family"@,
        probe_args(args) == probe_options(args, at + 2, begun),
        probe_args(args) is Ok,
        at == 2 ==> family_named(args[1]) == Ok::<CandidateFamily, Seq<char>>(begun.family),
        at == 0 ==> begun.family == CandidateFamily::Socrata,
        begun.domain == args[at],
        begun.dataset_id == args[at + 1],
        begun.source_name == text::replaced_all(args[at + 1], '-', '_'),
        !begun.json,
        1 <= more.len() <= 2,
    ensures
        probe_args(args + more) == probe_options(
            args + more,
            args.len() as int,
            probe_args(args)->Ok_0,
        ),
        (args + more).len() == args.len() + more.len(),
        (args + more)[args.len() as int] == more[0],
        more.len() == 2 ==> (args + more)[args.len() as int + 1] == more[1],
{
    let all = args + more;
    assert(all[0] == args[0] && all[1] == args[1]);
    assert(all[at] == args[at] && all[at + 1] == args[at + 1]);
    lemma_probe_options_go_on(args, more, at + 2, begun);
}

/// A portal and a dataset are enough to go on; in front of them a family may stand.
pub proof fn a_portal_and_a_dataset_are_enough(
    domain: Seq<char>,
    id: Seq<char>,
    name: Seq<char>,
)
    requires
        domain != "--family"@,
        name.len() == id.len(),
        forall|i: int|
            0 <= i < id.len() ==> #[trigger] name[i] == (if id[i] == '-' {
                '_'
            } else {
                id[i]
            }),
    ensures
        ({
            let plain = ProbeArgsView {
                family: CandidateFamily::Socrata,
                domain,
                dataset_id: id,
                source_name: name,
                json: false,
            };
            &&& probe_args(seq![domain, id]) == Ok::<ProbeArgsView, Seq<char>>(plain)
            &&& probe_args(seq!["--family"@, "socrata"@, domain, id]) == Ok::<
                ProbeArgsView,
                Seq<char>,
            >(plain)
            &&& probe_args(seq!["--family"@, "opendatasoft"@, domain, id]) == Ok::<
                ProbeArgsView,
                Seq<char>,
            >(ProbeArgsView { family: CandidateFamily::OpenDataSoft, ..plain })
            &&& probe_args(seq![domain]) is Err
            &&& probe_args(Seq::empty()) is Err
        }),
{
    lemma_probe_words();
    assert(text::replaced_all(id, '-', '_') =~= name);
}

} // verus!
