//! Crawls the Socrata and OpenDataSoft federated catalogs for animal-intake
//! datasets, and proposes candidates to be probed.
//!
//! Catalog entries are scored by the words of their names and descriptions and
//! by their columns; entries that score nothing are dropped, and an entry that
//! several searches find is taken once. Candidates are proposals: nothing here
//! adds a source.

use vstd::prelude::*;
use vstd::utf8;

use crate::error::{ConnectorError, ConnectorErrorView};
use crate::outcome;
use crate::query;
use crate::rank;
use crate::rank::Ranked;
use crate::text;

verus! {

// ---------------------------------------------------------------------------
// Candidates
// ---------------------------------------------------------------------------

/// Keywords that strongly suggest an intake-type column.
pub const INTAKE_TYPE_KEYWORDS: [&'static str; 5] = [
    "intake_type",
    "intaketype",
    "intake_subtype",
    "intake_condition",
    "entry_reason",
];

/// Keywords that strongly suggest an animal-type/species column.
pub const ANIMAL_TYPE_KEYWORDS: [&'static str; 3] = ["animal_type", "animaltype", "species"];

/// Which catalog family this candidate came from.
#[derive(Debug, Clone, Copy, PartialEq, Eq, Structural)]
pub enum CandidateFamily {
    /// Socrata / SODA federated catalog.
    Socrata,
    /// OpenDataSoft central catalog.
    OpenDataSoft,
}

impl CandidateFamily {
    /// The family's name.
    pub open spec fn name(self) -> Seq<char> {
        match self {
            CandidateFamily::Socrata => "socrata"@,
            CandidateFamily::OpenDataSoft => "opendatasoft"@,
        }
    }

    /// The family's name.
    pub fn label(&self) -> (res: String)
        ensures
            res@ == self.name(),
    {
        match self {
            CandidateFamily::Socrata => "socrata".to_owned(),
            CandidateFamily::OpenDataSoft => "opendatasoft".to_owned(),
        }
    }
}

/// A scored catalog candidate — one dataset from a federated catalog.
#[derive(Debug, Clone, PartialEq, Eq)]
pub struct Candidate {
    /// Which family this candidate belongs to.
    pub family: CandidateFamily,
    /// For Socrata: the domain (e.g. `data.austintexas.gov`).
    /// For ODS: the portal base URL (e.g. `https://data.example.org`).
    pub domain_or_base_url: String,
    /// Dataset identifier.
    pub dataset_id: String,
    /// Human-readable name of the dataset.
    pub name: String,
    /// Relevance score (higher = better match).
    pub score: u32,
    /// Human-readable signals that contributed to the score.
    pub matched_signals: Vec<String>,
    /// Ready-to-run probe command.
    pub probe_cmd: String,
}

/// The model of a [`Candidate`].
pub struct CandidateView {
    /// Which family this candidate belongs to.
    pub family: CandidateFamily,
    /// Domain or portal base URL.
    pub domain_or_base_url: Seq<char>,
    /// Dataset identifier.
    pub dataset_id: Seq<char>,
    /// Name of the dataset.
    pub name: Seq<char>,
    /// Relevance score.
    pub score: nat,
    /// Signals that contributed to the score.
    pub matched_signals: Seq<Seq<char>>,
    /// Ready-to-run probe command.
    pub probe_cmd: Seq<char>,
}

impl DeepView for Candidate {
    type V = CandidateView;

    open spec fn deep_view(&self) -> CandidateView {
        CandidateView {
            family: self.family,
            domain_or_base_url: self.domain_or_base_url@,
            dataset_id: self.dataset_id@,
            name: self.name@,
            score: self.score as nat,
            matched_signals: self.matched_signals.deep_view(),
            probe_cmd: self.probe_cmd@,
        }
    }
}

/// The command that probes a dataset.
pub open spec fn probe_command(family: CandidateFamily, base: Seq<char>, id: Seq<char>) -> Seq<char> {
    "homeward probe --family "@ + family.name() + " "@ + base + " "@ + id
}

impl Candidate {
    /// The command that probes a dataset.
    pub fn build_probe_cmd(
        family: CandidateFamily,
        domain_or_base_url: &str,
        dataset_id: &str,
    ) -> (res: String)
        ensures
            res@ == probe_command(family, domain_or_base_url@, dataset_id@),
    {
        "homeward probe --family ".to_owned().concat(&family.label()).concat(" ").concat(
            domain_or_base_url,
        ).concat(" ").concat(dataset_id)
    }
}

impl Ranked for Candidate {
    /// Higher scores first, then by name.
    open spec fn above(self, other: Self) -> bool {
        self.score > other.score || (self.score == other.score && text::comes_before(
            self.name@,
            other.name@,
        ))
    }

    fn is_above(&self, other: &Self) -> (res: bool) {
        self.score > other.score || (self.score == other.score && text::less(
            &self.name,
            &other.name,
        ))
    }

    proof fn above_is_strict(a: Self) {
        text::order_is_strict(a.name@, a.name@);
    }

    proof fn above_is_transitive(a: Self, b: Self, c: Self) {
        if a.score == b.score && b.score == c.score {
            text::order_is_transitive(a.name@, b.name@, c.name@);
        }
    }

    proof fn ties_are_transitive(a: Self, b: Self, c: Self) {
        if a.score == b.score && b.score == c.score {
            text::order_is_total(a.name@, b.name@);
            text::order_is_total(b.name@, c.name@);
            if text::comes_before(a.name@, c.name@) {
                text::order_is_strict(a.name@, c.name@);
                if text::comes_before(b.name@, a.name@) {
                    text::order_is_transitive(b.name@, a.name@, c.name@);
                }
            }
        }
    }
}

/// One candidate for a coverage hole.
#[derive(Debug, Clone, PartialEq, Eq)]
pub struct HoleCandidateRow {
    /// Human-readable region name for the hole.
    pub hole_region: String,
    /// Estimated population in the uncovered area.
    pub estimated_missed_population: u64,
    /// The catalog candidate discovered for this hole.
    pub candidate: Candidate,
}

impl Ranked for HoleCandidateRow {
    /// Larger populations first, then higher scores, then by name.
    open spec fn above(self, other: Self) -> bool {
        self.estimated_missed_population > other.estimated_missed_population || (
        self.estimated_missed_population == other.estimated_missed_population
            && self.candidate.above(other.candidate))
    }

    fn is_above(&self, other: &Self) -> (res: bool) {
        self.estimated_missed_population > other.estimated_missed_population || (
        self.estimated_missed_population == other.estimated_missed_population
            && self.candidate.is_above(&other.candidate))
    }

    proof fn above_is_strict(a: Self) {
        Candidate::above_is_strict(a.candidate);
    }

    proof fn above_is_transitive(a: Self, b: Self, c: Self) {
        if a.candidate.above(b.candidate) && b.candidate.above(c.candidate) {
            Candidate::above_is_transitive(a.candidate, b.candidate, c.candidate);
        }
    }

    proof fn ties_are_transitive(a: Self, b: Self, c: Self) {
        if !a.candidate.above(b.candidate) && !b.candidate.above(c.candidate) {
            Candidate::ties_are_transitive(a.candidate, b.candidate, c.candidate);
        }
    }
}

/// The first `n` of a row, or all of it.
pub open spec fn capped<T>(rows: Seq<T>, n: Option<usize>) -> Seq<T> {
    match n {
        Some(k) => if rows.len() <= k {
            rows
        } else {
            rows.take(k as int)
        },
        None => rows,
    }
}

/// Keeps the first `n` of a row, or all of it.
pub fn cap<T>(rows: Vec<T>, n: Option<usize>) -> (res: Vec<T>)
    ensures
        res@ == capped(rows@, n),
{
    let mut rows = rows;
    if let Some(k) = n {
        if k < rows.len() {
            let ghost all = rows@;
            rows.truncate(k);
            assert(rows@ =~= all.take(k as int));
        }
    }
    rows
}

/// Ranks candidates and keeps the first `limit`.
pub fn rank_candidates(candidates: Vec<Candidate>, limit: Option<usize>) -> (res: Vec<Candidate>)
    ensures
        res@ == capped(rank::ranking(candidates@), limit),
{
    cap(rank::rank(candidates), limit)
}

/// Ranks the candidates for holes and keeps the first `top_n`.
pub fn rank_hole_rows(rows: Vec<HoleCandidateRow>, top_n: Option<usize>) -> (res: Vec<
    HoleCandidateRow,
>)
    ensures
        res@ == capped(rank::ranking(rows@), top_n),
{
    cap(rank::rank(rows), top_n)
}

// ---------------------------------------------------------------------------
// Coverage holes
// ---------------------------------------------------------------------------

/// A coordinate of a hole's centroid (WGS-84): its side and its written
/// magnitude.
#[derive(Debug, Clone, PartialEq, Eq)]
pub struct Degrees {
    /// Whether it lies south of the equator, or west of the meridian.
    pub negative: bool,
    /// The magnitude to one decimal place.
    pub tenths: String,
    /// The magnitude to two decimal places.
    pub hundredths: String,
}

/// The model of [`Degrees`].
pub struct DegreesView {
    /// Whether it lies south of the equator, or west of the meridian.
    pub negative: bool,
    /// The magnitude to one decimal place.
    pub tenths: Seq<char>,
    /// The magnitude to two decimal places.
    pub hundredths: Seq<char>,
}

impl DeepView for Degrees {
    type V = DegreesView;

    open spec fn deep_view(&self) -> DegreesView {
        DegreesView {
            negative: self.negative,
            tenths: self.tenths@,
            hundredths: self.hundredths@,
        }
    }
}

/// The letter of a latitude's side.
pub open spec fn north_south(lat: DegreesView) -> Seq<char> {
    if lat.negative {
        "S"@
    } else {
        "N"@
    }
}

/// The letter of a longitude's side.
pub open spec fn east_west(lon: DegreesView) -> Seq<char> {
    if lon.negative {
        "W"@
    } else {
        "E"@
    }
}

/// A place as a search term, such as `29.8N 95.4W`.
pub open spec fn compass_term(lat: DegreesView, lon: DegreesView) -> Seq<char> {
    lat.tenths + north_south(lat) + " "@ + lon.tenths + east_west(lon)
}

/// A place as a name, such as `29.76N,95.36W`.
pub open spec fn compass_name(lat: DegreesView, lon: DegreesView) -> Seq<char> {
    lat.hundredths + north_south(lat) + ","@ + lon.hundredths + east_west(lon)
}

/// A geographic coverage hole: a region without a feed.
#[derive(Debug, Clone, PartialEq, Eq)]
pub struct CoverageHole {
    /// Latitude of the hole's centroid.
    pub lat: Degrees,
    /// Longitude of the hole's centroid.
    pub lon: Degrees,
    /// Estimated population living in the uncovered area (0 if unknown).
    pub estimated_missed_population: u64,
    /// Region label (e.g. "Los Angeles, CA").
    pub label: Option<String>,
}

/// What to search the catalogs for: the label up to its first comma, or else
/// the place.
pub open spec fn hole_term(
    label: Option<Seq<char>>,
    lat: DegreesView,
    lon: DegreesView,
) -> Seq<char> {
    match label {
        Some(l) => text::trimmed(text::split_on(l, ',')[0]),
        None => compass_term(lat, lon),
    }
}

/// The region's name: the label, or else the place.
pub open spec fn hole_name(
    label: Option<Seq<char>>,
    lat: DegreesView,
    lon: DegreesView,
) -> Seq<char> {
    match label {
        Some(l) => l,
        None => compass_name(lat, lon),
    }
}

impl CoverageHole {
    fn sides(&self) -> (res: (&'static str, &'static str))
        ensures
            res.0@ == north_south(self.lat.deep_view()),
            res.1@ == east_west(self.lon.deep_view()),
    {
        (
            if self.lat.negative {
                "S"
            } else {
                "N"
            },
            if self.lon.negative {
                "W"
            } else {
                "E"
            },
        )
    }

    /// What to search the catalogs for.
    pub fn query_terms(&self) -> (res: Vec<String>)
        ensures
            res.deep_view() == seq![
                hole_term(self.label.deep_view(), self.lat.deep_view(), self.lon.deep_view()),
            ],
    {
        let term = match &self.label {
            Some(label) => {
                let parts = text::split(label, ',');
                assert(parts.deep_view()[0] == parts@[0]@);
                parts[0].trim().to_owned()
            },
            None => {
                let (ns, ew) = self.sides();
                self.lat.tenths.clone().concat(ns).concat(" ").concat(&self.lon.tenths).concat(ew)
            },
        };
        let res = vec![term];
        assert(res.deep_view() =~= seq![
            hole_term(self.label.deep_view(), self.lat.deep_view(), self.lon.deep_view()),
        ]);
        res
    }

    /// The region's name.
    pub fn region_name(&self) -> (res: String)
        ensures
            res@ == hole_name(self.label.deep_view(), self.lat.deep_view(), self.lon.deep_view()),
    {
        match &self.label {
            Some(label) => label.clone(),
            None => {
                let (ns, ew) = self.sides();
                self.lat.hundredths.clone().concat(ns).concat(",").concat(
                    &self.lon.hundredths,
                ).concat(ew)
            },
        }
    }

    /// Pairs the candidates that were found for this hole with it.
    pub fn rows(&self, candidates: Vec<Candidate>) -> (res: Vec<HoleCandidateRow>)
        ensures
            res.len() == candidates.len(),
            forall|i: int|
                0 <= i < res.len() ==> {
                    &&& (#[trigger] res@[i]).hole_region@ == hole_name(
                        self.label.deep_view(),
                        self.lat.deep_view(),
                        self.lon.deep_view(),
                    )
                    &&& res@[i].estimated_missed_population == self.estimated_missed_population
                    &&& res@[i].candidate.deep_view() == candidates@[i].deep_view()
                },
    {
        let mut out: Vec<HoleCandidateRow> = Vec::new();
        let region = self.region_name();
        let mut i: usize = 0;
        while i < candidates.len()
            invariant
                i == out.len() <= candidates.len(),
                region@ == hole_name(
                    self.label.deep_view(),
                    self.lat.deep_view(),
                    self.lon.deep_view(),
                ),
                forall|j: int|
                    0 <= j < i ==> {
                        &&& (#[trigger] out@[j]).hole_region@ == region@
                        &&& out@[j].estimated_missed_population == self.estimated_missed_population
                        &&& out@[j].candidate.deep_view() == candidates@[j].deep_view()
                    },
            decreases candidates.len() - i,
        {
            out.push(
                HoleCandidateRow {
                    hole_region: region.clone(),
                    estimated_missed_population: self.estimated_missed_population,
                    candidate: copy_candidate(&candidates[i]),
                },
            );
            i += 1;
        }
        out
    }
}

/// The error for a list of holes that could not be read from its file.
pub fn holes_read_error(path: &str, complaint: &str) -> (res: ConnectorError)
    ensures
        res.deep_view() == ConnectorErrorView::Config(
            "cannot read holes file "@ + path@ + ": "@ + complaint@,
        ),
{
    ConnectorError::Config(
        "cannot read holes file ".to_owned().concat(path).concat(": ").concat(complaint),
    )
}

/// The error for a list of holes that is not understood; `path` is that of its
/// file, where it comes from one.
pub fn holes_parse_error(path: Option<&str>, complaint: &str) -> (res: ConnectorError)
    ensures
        res.deep_view() == ConnectorErrorView::Config(
            "cannot parse holes JSON"@ + (match path {
                Some(p) => " from "@ + p@,
                None => Seq::empty(),
            }) + ": "@ + complaint@,
        ),
{
    let place = match path {
        Some(p) => " from ".to_owned().concat(p),
        None => String::new(),
    };
    assert(path is None ==> place@ =~= Seq::empty());
    ConnectorError::Config(
        "cannot parse holes JSON".to_owned().concat(&place).concat(": ").concat(complaint),
    )
}

fn copy_candidate(c: &Candidate) -> (res: Candidate)
    ensures
        res.deep_view() == c.deep_view(),
{
    let res = Candidate {
        family: c.family,
        domain_or_base_url: c.domain_or_base_url.clone(),
        dataset_id: c.dataset_id.clone(),
        name: c.name.clone(),
        score: c.score,
        matched_signals: c.matched_signals.clone(),
        probe_cmd: c.probe_cmd.clone(),
    };
    assert(res.matched_signals.deep_view() =~= c.matched_signals.deep_view());
    res
}

// ---------------------------------------------------------------------------
// Scoring
// ---------------------------------------------------------------------------

/// The strongest word in a name and description, with what it is worth.
pub open spec fn name_signal(combined: Seq<char>) -> Option<(nat, Seq<char>)> {
    if text::has(combined, "animal intake"@) {
        Some((4, "name:animal-intake"@))
    } else if text::has(combined, "animal services"@) {
        Some((3, "name:animal-services"@))
    } else if text::has(combined, "shelter intake"@) {
        Some((3, "name:shelter-intake"@))
    } else if text::has(combined, "stray"@) {
        Some((3, "name:stray"@))
    } else if text::has(combined, "shelter"@) {
        Some((2, "name:shelter"@))
    } else if text::has(combined, "animal control"@) {
        Some((2, "name:animal-control"@))
    } else if text::has(combined, "animal"@) {
        Some((1, "name:animal"@))
    } else if text::has(combined, "intake"@) {
        Some((1, "name:intake"@))
    } else {
        None
    }
}

/// Whether a column's name holds one of the keywords.
pub open spec fn column_has(column: Seq<char>, keywords: Seq<&'static str>) -> bool {
    exists|k: int|
        0 <= k < keywords.len() && text::has(text::lowercase(column), (#[trigger] keywords[k])@)
}

/// Whether some column's name holds one of the keywords.
pub open spec fn any_column_has(columns: Seq<Seq<char>>, keywords: Seq<&'static str>) -> bool {
    exists|i: int| 0 <= i < columns.len() && column_has(#[trigger] columns[i], keywords)
}

/// What a dataset is worth and why: the strongest word of its name and
/// description, two for an intake column and one for a species column.
pub open spec fn score_of(name: Seq<char>, description: Seq<char>, columns: Seq<Seq<char>>) -> (
    nat,
    Seq<Seq<char>>,
) {
    let named = name_signal(text::lowercase(name) + " "@ + text::lowercase(description));
    let intake = any_column_has(columns, INTAKE_TYPE_KEYWORDS@);
    let animal = any_column_has(columns, ANIMAL_TYPE_KEYWORDS@);
    let s0: Seq<Seq<char>> = match named {
        Some((_, signal)) => seq![signal],
        None => Seq::empty(),
    };
    let s1 = if intake {
        s0.push("col:intake-type"@)
    } else {
        s0
    };
    let s2 = if animal {
        s1.push("col:animal-type"@)
    } else {
        s1
    };
    let points: nat = match named {
        Some((n, _)) => n,
        None => 0,
    };
    (
        points + (if intake {
            2nat
        } else {
            0nat
        }) + (if animal {
            1nat
        } else {
            0nat
        }),
        s2,
    )
}

fn find_column(columns: &[String], keywords: &[&'static str]) -> (res: bool)
    ensures
        res == any_column_has(columns.deep_view(), keywords@),
{
    let ghost all = columns.deep_view();
    let mut i: usize = 0;
    while i < columns.len()
        invariant
            i <= columns.len(),
            all == columns.deep_view(),
            forall|j: int| 0 <= j < i ==> !column_has(#[trigger] all[j], keywords@),
        decreases columns.len() - i,
    {
        assert(all[i as int] == columns@[i as int]@);
        let column = text::lower(&columns[i]);
        let mut k: usize = 0;
        while k < keywords.len()
            invariant
                k <= keywords.len(),
                i < columns.len(),
                all == columns.deep_view(),
                column@ == text::lowercase(all[i as int]),
                forall|j: int| 0 <= j < k ==> !text::has(column@, (#[trigger] keywords@[j])@),
            decreases keywords.len() - k,
        {
            if text::contains(&column, keywords[k]) {
                assert(text::has(column@, keywords@[k as int]@));
                assert(column_has(all[i as int], keywords@));
                return true;
            }
            k += 1;
        }
        i += 1;
    }
    false
}

/// Scores a dataset by its name, description and column names.
pub fn score_candidate(name: &str, description: &str, column_names: &[String]) -> (res: (
    u32,
    Vec<String>,
))
    ensures
        (res.0 as nat, res.1.deep_view()) == score_of(
            name@,
            description@,
            column_names.deep_view(),
        ),
{
    let combined = text::lower(name).concat(" ").concat(&text::lower(description));
    let mut signals: Vec<String> = Vec::new();
    let mut score: u32 = 0;
    if text::contains(&combined, "animal intake") {
        score = 4;
        signals.push("name:animal-intake".to_owned());
    } else if text::contains(&combined, "animal services") {
        score = 3;
        signals.push("name:animal-services".to_owned());
    } else if text::contains(&combined, "shelter intake") {
        score = 3;
        signals.push("name:shelter-intake".to_owned());
    } else if text::contains(&combined, "stray") {
        score = 3;
        signals.push("name:stray".to_owned());
    } else if text::contains(&combined, "shelter") {
        score = 2;
        signals.push("name:shelter".to_owned());
    } else if text::contains(&combined, "animal control") {
        score = 2;
        signals.push("name:animal-control".to_owned());
    } else if text::contains(&combined, "animal") {
        score = 1;
        signals.push("name:animal".to_owned());
    } else if text::contains(&combined, "intake") {
        score = 1;
        signals.push("name:intake".to_owned());
    }
    if find_column(column_names, &INTAKE_TYPE_KEYWORDS) {
        score = score + 2;
        signals.push("col:intake-type".to_owned());
    }
    if find_column(column_names, &ANIMAL_TYPE_KEYWORDS) {
        score = score + 1;
        signals.push("col:animal-type".to_owned());
    }
    assert(signals.deep_view() =~= score_of(name@, description@, column_names.deep_view()).1);
    (score, signals)
}

// ---------------------------------------------------------------------------
// Crawling
// ---------------------------------------------------------------------------

/// What the catalogs are searched for, one term after the other.
pub const SEARCH_TERMS: [&'static str; 4] = [
    "animal intake",
    "animal shelter",
    "stray",
    "animal services",
];

/// How many results a page of a catalog holds.
pub const CATALOG_PAGE: u64 = 100;

/// How many pages of a catalog are read for each term.
pub const PAGES_PER_TERM: u64 = 3;

/// How many pages of a catalog are read for each term on behalf of a hole.
pub const PAGES_PER_HOLE: u64 = 2;

/// The address of one page of the Socrata catalog.
pub open spec fn socrata_catalog_url(term: Seq<char>, offset: nat, metro: Option<Seq<char>>) -> Seq<
    char,
> {
    let url = "https://api.us.socrata.com/api/catalog/v1?q="@ + text::replaced_all(term, ' ', '+')
        + "&only=dataset&limit=100&offset="@ + text::decimal(offset);
    match metro {
        Some(m) => url + "&search_context="@ + text::replaced_all(m, ' ', '+'),
        None => url,
    }
}

/// Builds the address of one page of the Socrata catalog.
pub fn build_socrata_catalog_url(term: &str, offset: u64, metro: Option<&str>) -> (res: String)
    ensures
        res@ == socrata_catalog_url(term@, offset as nat, metro.deep_view()),
{
    let url = "https://api.us.socrata.com/api/catalog/v1?q=".to_owned().concat(
        &text::replace_all(term, ' ', '+'),
    ).concat("&only=dataset&limit=100&offset=").concat(&text::write_decimal(offset));
    match metro {
        Some(m) => url.concat("&search_context=").concat(&text::replace_all(m, ' ', '+')),
        None => url,
    }
}

/// A text with each space written as `%20`.
pub open spec fn percent_spaces(s: Seq<char>) -> Seq<char> {
    text::joined(text::split_on(s, ' '), "%20"@)
}

fn write_percent_spaces(s: &str) -> (res: String)
    ensures
        res@ == percent_spaces(s@),
{
    text::join(&text::split(s, ' '), "%20")
}

/// The address of one page of the OpenDataSoft catalog.
pub open spec fn ods_catalog_url(term: Seq<char>, offset: nat, metro: Option<Seq<char>>) -> Seq<
    char,
> {
    let url = "https://data.opendatasoft.com/api/explore/v2.1/catalog/datasets?q="@
        + percent_spaces(term) + "&limit=100&offset="@ + text::decimal(offset);
    match metro {
        Some(m) => url + "&where=metas.default.keyword+like+%22"@ + percent_spaces(m) + "%22"@,
        None => url,
    }
}

/// Builds the address of one page of the OpenDataSoft catalog.
pub fn build_ods_catalog_url(term: &str, offset: u64, metro: Option<&str>) -> (res: String)
    ensures
        res@ == ods_catalog_url(term@, offset as nat, metro.deep_view()),
{
    let url = "https://data.opendatasoft.com/api/explore/v2.1/catalog/datasets?q=".to_owned().concat(
        &write_percent_spaces(term),
    ).concat("&limit=100&offset=").concat(&text::write_decimal(offset));
    match metro {
        Some(m) => url.concat("&where=metas.default.keyword+like+%22").concat(
            &write_percent_spaces(m),
        ).concat("%22"),
        None => url,
    }
}

/// An entry of the Socrata catalog.
pub struct SocrataResource {
    /// Dataset identifier.
    pub id: String,
    /// Dataset name.
    pub name: String,
    /// Dataset description.
    pub description: String,
    /// The domain that publishes it.
    pub domain: String,
    /// Names of its columns.
    pub columns_name: Vec<String>,
}

/// An entry of the OpenDataSoft catalog.
pub struct OdsDataset {
    /// Dataset identifier.
    pub dataset_id: String,
    /// Dataset name.
    pub title: String,
    /// Dataset description.
    pub description: Option<String>,
    /// The portal that publishes it.
    pub domain: Option<String>,
    /// Names of its fields.
    pub fields: Vec<String>,
}

/// A catalog entry of either family.
pub struct CatalogEntry {
    /// Domain or portal base URL.
    pub base: String,
    /// Dataset identifier.
    pub dataset_id: String,
    /// Dataset name.
    pub name: String,
    /// Dataset description.
    pub description: String,
    /// Names of its columns.
    pub columns: Vec<String>,
}

/// The model of a [`CatalogEntry`].
pub struct CatalogEntryView {
    /// Domain or portal base URL.
    pub base: Seq<char>,
    /// Dataset identifier.
    pub dataset_id: Seq<char>,
    /// Dataset name.
    pub name: Seq<char>,
    /// Dataset description.
    pub description: Seq<char>,
    /// Names of its columns.
    pub columns: Seq<Seq<char>>,
}

impl DeepView for CatalogEntry {
    type V = CatalogEntryView;

    open spec fn deep_view(&self) -> CatalogEntryView {
        CatalogEntryView {
            base: self.base@,
            dataset_id: self.dataset_id@,
            name: self.name@,
            description: self.description@,
            columns: self.columns.deep_view(),
        }
    }
}

/// The base URL of a portal: the central catalog where none is named, and
/// `https` where no scheme is.
pub open spec fn portal_url(domain: Option<Seq<char>>) -> Seq<char> {
    match domain {
        None => "https://data.opendatasoft.com"@,
        Some(d) => if d.len() == 0 {
            "https://data.opendatasoft.com"@
        } else if "http"@.is_prefix_of(d) {
            d
        } else {
            "https://"@ + d
        },
    }
}

impl CatalogEntry {
    /// The entry of a dataset of the Socrata catalog.
    pub fn from_socrata(resource: SocrataResource) -> (res: CatalogEntry)
        ensures
            res.deep_view() == (CatalogEntryView {
                base: resource.domain@,
                dataset_id: resource.id@,
                name: resource.name@,
                description: resource.description@,
                columns: resource.columns_name.deep_view(),
            }),
    {
        CatalogEntry {
            base: resource.domain,
            dataset_id: resource.id,
            name: resource.name,
            description: resource.description,
            columns: resource.columns_name,
        }
    }

    /// The entry of a dataset of the OpenDataSoft catalog.
    pub fn from_opendatasoft(dataset: OdsDataset) -> (res: CatalogEntry)
        ensures
            res.deep_view() == (CatalogEntryView {
                base: portal_url(dataset.domain.deep_view()),
                dataset_id: dataset.dataset_id@,
                name: dataset.title@,
                description: match dataset.description {
                    Some(d) => d@,
                    None => Seq::empty(),
                },
                columns: dataset.fields.deep_view(),
            }),
    {
        let base = match &dataset.domain {
            None => "https://data.opendatasoft.com".to_owned(),
            Some(d) => if d.as_str().is_empty() {
                "https://data.opendatasoft.com".to_owned()
            } else if text::starts_with(d, "http") {
                d.clone()
            } else {
                "https://".to_owned().concat(d)
            },
        };
        let description = match dataset.description {
            Some(d) => d,
            None => String::new(),
        };
        CatalogEntry {
            base,
            dataset_id: dataset.dataset_id,
            name: dataset.title,
            description,
            columns: dataset.fields,
        }
    }
}

/// What tells datasets of a family apart: the identifier, within its domain for
/// Socrata.
pub open spec fn dataset_key(family: CandidateFamily, base: Seq<char>, id: Seq<char>) -> Seq<char> {
    match family {
        CandidateFamily::Socrata => base + ":"@ + id,
        CandidateFamily::OpenDataSoft => id,
    }
}

fn write_dataset_key(family: CandidateFamily, base: &str, id: &str) -> (res: String)
    ensures
        res@ == dataset_key(family, base@, id@),
{
    match family {
        CandidateFamily::Socrata => base.to_owned().concat(":").concat(id),
        CandidateFamily::OpenDataSoft => id.to_owned(),
    }
}

/// The candidate that an entry makes.
pub open spec fn candidate_of(entry: CatalogEntryView, family: CandidateFamily) -> CandidateView {
    let (score, signals) = score_of(entry.name, entry.description, entry.columns);
    CandidateView {
        family,
        domain_or_base_url: entry.base,
        dataset_id: entry.dataset_id,
        name: entry.name,
        score,
        matched_signals: signals,
        probe_cmd: probe_command(family, entry.base, entry.dataset_id),
    }
}

/// The keys seen after a page.
pub open spec fn keys_after(
    entries: Seq<CatalogEntryView>,
    family: CandidateFamily,
    seen: Seq<Seq<char>>,
) -> Seq<Seq<char>>
    decreases entries.len(),
{
    if entries.len() == 0 {
        seen
    } else {
        let before = keys_after(entries.drop_last(), family, seen);
        let key = dataset_key(family, entries.last().base, entries.last().dataset_id);
        if before.contains(key) {
            before
        } else {
            before.push(key)
        }
    }
}

/// The candidates of a page: entries that were not seen before and score
/// something, in order.
pub open spec fn candidates_of(
    entries: Seq<CatalogEntryView>,
    family: CandidateFamily,
    seen: Seq<Seq<char>>,
) -> Seq<CandidateView>
    decreases entries.len(),
{
    if entries.len() == 0 {
        Seq::empty()
    } else {
        let before = candidates_of(entries.drop_last(), family, seen);
        let last = entries.last();
        let key = dataset_key(family, last.base, last.dataset_id);
        if keys_after(entries.drop_last(), family, seen).contains(key) || candidate_of(
            last,
            family,
        ).score == 0 {
            before
        } else {
            before.push(candidate_of(last, family))
        }
    }
}

/// A crawl of one catalog under way.
#[derive(Debug)]
pub struct Crawl {
    /// Which catalog is crawled.
    pub family: CandidateFamily,
    /// How many pages are read of each term.
    pub page_limit: u64,
    /// The place in [`SEARCH_TERMS`] of the term that is searched for; past the
    /// end when all have been.
    pub term: usize,
    /// How many pages of the term have been read.
    pub page: u64,
    /// Where the next page begins.
    pub offset: u64,
    /// The keys of the datasets so far.
    pub seen: Vec<String>,
    /// The candidates so far.
    pub candidates: Vec<Candidate>,
}

/// The key of a candidate.
pub open spec fn candidate_key(c: CandidateView) -> Seq<char> {
    dataset_key(c.family, c.domain_or_base_url, c.dataset_id)
}

impl Crawl {
    /// Every candidate is of this family, scores something, can be probed by
    /// its command, and was seen; no dataset is a candidate twice.
    pub open spec fn wf(&self) -> bool {
        &&& self.term <= SEARCH_TERMS@.len()
        &&& self.term < SEARCH_TERMS@.len() ==> self.page < self.page_limit
        &&& self.page * CATALOG_PAGE == self.offset
        &&& self.seen.deep_view().no_duplicates()
        &&& forall|i: int|
            0 <= i < self.candidates.len() ==> sound_candidate(
                #[trigger] self.candidates.deep_view()[i],
                self.family,
                self.seen.deep_view(),
            )
        &&& forall|i: int, j: int|
            0 <= i < j < self.candidates.len() ==> candidate_key(
                #[trigger] self.candidates.deep_view()[i],
            ) != candidate_key(#[trigger] self.candidates.deep_view()[j])
    }

    /// Whether every term has been searched for.
    pub open spec fn is_done(&self) -> bool {
        self.term >= SEARCH_TERMS@.len()
    }

    /// Begins a crawl that reads up to `page_limit` pages of each term.
    pub fn start(family: CandidateFamily, page_limit: u64) -> (res: Crawl)
        ensures
            res.wf(),
            res.family == family,
            res.page_limit == page_limit,
            res.term == (if page_limit == 0 {
                SEARCH_TERMS@.len()
            } else {
                0
            }),
            res.page == 0,
            res.candidates@.len() == 0,
            res.seen@.len() == 0,
    {
        let term: usize = if page_limit == 0 {
            SEARCH_TERMS.len()
        } else {
            0
        };
        Crawl {
            family,
            page_limit,
            term,
            page: 0,
            offset: 0,
            seen: Vec::new(),
            candidates: Vec::new(),
        }
    }

    /// Whether every term has been searched for.
    pub fn done(&self) -> (res: bool)
        ensures
            res == self.is_done(),
    {
        self.term >= SEARCH_TERMS.len()
    }

    /// The address of the next page, narrowed to a metro where one is given.
    pub fn next_url(&self, metro: Option<&str>) -> (res: String)
        requires
            !self.is_done(),
        ensures
            res@ == (match self.family {
                CandidateFamily::Socrata => socrata_catalog_url(
                    SEARCH_TERMS@[self.term as int]@,
                    self.offset as nat,
                    metro.deep_view(),
                ),
                CandidateFamily::OpenDataSoft => ods_catalog_url(
                    SEARCH_TERMS@[self.term as int]@,
                    self.offset as nat,
                    metro.deep_view(),
                ),
            }),
    {
        match self.family {
            CandidateFamily::Socrata => build_socrata_catalog_url(
                SEARCH_TERMS[self.term],
                self.offset,
                metro,
            ),
            CandidateFamily::OpenDataSoft => build_ods_catalog_url(
                SEARCH_TERMS[self.term],
                self.offset,
                metro,
            ),
        }
    }

    /// The error for a page that cannot be understood.
    pub fn parse_error(&self, complaint: &str) -> (res: ConnectorError)
        ensures
            res.deep_view() == ConnectorErrorView::Config(
                (match self.family {
                    CandidateFamily::Socrata => "Socrata"@,
                    CandidateFamily::OpenDataSoft => "ODS"@,
                }) + " catalog parse error: "@ + complaint@,
            ),
    {
        let family = match self.family {
            CandidateFamily::Socrata => "Socrata",
            CandidateFamily::OpenDataSoft => "ODS",
        };
        ConnectorError::Config(
            family.to_owned().concat(" catalog parse error: ").concat(complaint),
        )
    }

    /// Takes in one page of entries and the number of results that the catalog
    /// gives. A short page, one that reaches that number, or the last allowed
    /// page, ends the term.
    pub fn absorb(&mut self, entries: &Vec<CatalogEntry>, total: Option<u64>)
        requires
            old(self).wf(),
            !old(self).is_done(),
            old(self).offset + CATALOG_PAGE <= u64::MAX,
        ensures
            final(self).wf(),
            final(self).family == old(self).family,
            final(self).page_limit == old(self).page_limit,
            final(self).seen.deep_view() == keys_after(
                entries.deep_view(),
                old(self).family,
                old(self).seen.deep_view(),
            ),
            final(self).candidates.deep_view() == old(self).candidates.deep_view() + candidates_of(
                entries.deep_view(),
                old(self).family,
                old(self).seen.deep_view(),
            ),
            ({
                let known: u64 = match total {
                    Some(n) => n,
                    None => 0,
                };
                let ends = entries.len() < CATALOG_PAGE || old(self).offset + CATALOG_PAGE >= known
                    || old(self).page + 1 >= old(self).page_limit;
                &&& ends ==> final(self).term == old(self).term + 1 && final(self).page == 0
                &&& !ends ==> final(self).term == old(self).term && final(self).page == old(
                    self).page + 1
            }),
    {
        let family = self.family;
        let ghost all = entries.deep_view();
        let ghost seen = self.seen.deep_view();
        let ghost before = self.candidates.deep_view();
        let mut i: usize = 0;
        while i < entries.len()
            invariant
                i <= entries.len(),
                all == entries.deep_view(),
                family == self.family,
                self.wf(),
                !self.is_done(),
                self.family == old(self).family,
                self.page_limit == old(self).page_limit,
                self.term == old(self).term,
                self.page == old(self).page,
                self.offset == old(self).offset,
                self.seen.deep_view() =~= keys_after(all.take(i as int), family, seen),
                self.candidates.deep_view() =~= before + candidates_of(
                    all.take(i as int),
                    family,
                    seen,
                ),
            decreases entries.len() - i,
        {
            let entry = &entries[i];
            proof {
                assert(all.take(i + 1).drop_last() == all.take(i as int));
                assert(all.take(i + 1).last() == entry.deep_view());
            }
            let key = write_dataset_key(family, &entry.base, &entry.dataset_id);
            let ghost keys = self.seen.deep_view();
            let ghost cands = self.candidates.deep_view();
            if !contains_key(&self.seen, &key) {
                let (score, signals) = score_candidate(
                    &entry.name,
                    &entry.description,
                    entry.columns.as_slice(),
                );
                let ghost key_view = key@;
                self.seen.push(key);
                proof {
                    assert(self.seen.deep_view() =~= keys.push(key_view));
                    assert forall|j: int| 0 <= j < self.candidates.len() implies sound_candidate(
                        #[trigger] self.candidates.deep_view()[j],
                        family,
                        self.seen.deep_view(),
                    ) by {
                        assert(sound_candidate(cands[j], family, keys));
                        lemma_push_contains(keys, key_view, candidate_key(cands[j]));
                    }
                }
                if score > 0 {
                    let c = Candidate {
                        family,
                        domain_or_base_url: entry.base.clone(),
                        dataset_id: entry.dataset_id.clone(),
                        name: entry.name.clone(),
                        score,
                        matched_signals: signals,
                        probe_cmd: Candidate::build_probe_cmd(
                            family,
                            &entry.base,
                            &entry.dataset_id,
                        ),
                    };
                    self.candidates.push(c);
                    proof {
                        assert(c.deep_view() == candidate_of(entry.deep_view(), family));
                        assert(self.candidates.deep_view() =~= cands.push(c.deep_view()));
                        assert(keys.push(key_view).last() == key_view);
                        assert forall|j: int| 0 <= j < self.candidates.len() implies sound_candidate(
                            #[trigger] self.candidates.deep_view()[j],
                            family,
                            self.seen.deep_view(),
                        ) by {
                            if j < cands.len() {
                                assert(sound_candidate(cands[j], family, keys));
                                lemma_push_contains(keys, key_view, candidate_key(cands[j]));
                            }
                        }
                        assert forall|a: int, b: int|
                            0 <= a < b < self.candidates.len() implies candidate_key(
                            #[trigger] self.candidates.deep_view()[a],
                        ) != candidate_key(#[trigger] self.candidates.deep_view()[b]) by {
                            assert(sound_candidate(cands[a], family, keys));
                            if b < cands.len() {
                                assert(candidate_key(cands[a]) != candidate_key(cands[b]));
                            }
                        }
                    }
                }
            }
            i += 1;
        }
        proof {
            assert(all.take(entries.len() as int) == all);
        }
        let known: u64 = match total {
            Some(n) => n,
            None => 0,
        };
        let next = self.offset + CATALOG_PAGE;
        if (entries.len() as u64) < CATALOG_PAGE || next >= known || self.page + 1
            >= self.page_limit {
            self.term = self.term + 1;
            self.page = 0;
            self.offset = 0;
        } else {
            self.page = self.page + 1;
            self.offset = next;
        }
    }
}

/// Whether a candidate is of the family, scores something, can be probed by its
/// command, and was seen.
pub open spec fn sound_candidate(
    c: CandidateView,
    family: CandidateFamily,
    seen: Seq<Seq<char>>,
) -> bool {
    &&& c.family == family
    &&& c.score > 0
    &&& c.probe_cmd == probe_command(family, c.domain_or_base_url, c.dataset_id)
    &&& seen.contains(candidate_key(c))
}

proof fn lemma_push_contains(s: Seq<Seq<char>>, x: Seq<char>, k: Seq<char>)
    requires
        s.contains(k),
    ensures
        s.push(x).contains(k),
{
    let i = choose|i: int| 0 <= i < s.len() && s[i] == k;
    assert(s.push(x)[i] == k);
}

fn contains_key(keys: &Vec<String>, key: &String) -> (res: bool)
    ensures
        res == keys.deep_view().contains(key@),
{
    let mut i: usize = 0;
    while i < keys.len()
        invariant
            i <= keys.len(),
            forall|j: int| 0 <= j < i ==> #[trigger] keys.deep_view()[j] != key@,
        decreases keys.len() - i,
    {
        assert(keys.deep_view()[i as int] == keys@[i as int]@);
        if text::same(&keys[i], key) {
            return true;
        }
        i += 1;
    }
    false
}

// ---------------------------------------------------------------------------
// Arguments
// ---------------------------------------------------------------------------

/// Parsed arguments for the `discover` subcommand.
#[derive(Debug, Clone, PartialEq, Eq)]
pub struct DiscoverArgs {
    /// Which catalog families to query (e.g. `["socrata", "opendatasoft"]`).
    pub families: Vec<String>,
    /// Optional metro/city filter to narrow catalog results (standard mode).
    pub metro: Option<String>,
    /// Cap output to this many candidates (standard mode).
    pub limit: Option<usize>,
    /// Emit JSON instead of a human-readable table.
    pub json_output: bool,
    /// Read coverage holes from this file and search for each of them.
    pub from_holes: Option<String>,
    /// Cap output to this many hole-candidate rows (holes mode).
    pub top_n: Option<usize>,
    /// Output format override for holes mode: "json" or "table".
    pub format: Option<String>,
}

/// The model of [`DiscoverArgs`].
pub struct DiscoverArgsView {
    /// Which catalog families to query.
    pub families: Seq<Seq<char>>,
    /// Metro/city filter.
    pub metro: Option<Seq<char>>,
    /// Cap on candidates.
    pub limit: Option<usize>,
    /// Emit JSON.
    pub json_output: bool,
    /// File of coverage holes.
    pub from_holes: Option<Seq<char>>,
    /// Cap on hole-candidate rows.
    pub top_n: Option<usize>,
    /// Output format override.
    pub format: Option<Seq<char>>,
}

impl DeepView for DiscoverArgs {
    type V = DiscoverArgsView;

    open spec fn deep_view(&self) -> DiscoverArgsView {
        DiscoverArgsView {
            families: self.families.deep_view(),
            metro: self.metro.deep_view(),
            limit: self.limit,
            json_output: self.json_output,
            from_holes: self.from_holes.deep_view(),
            top_n: self.top_n,
            format: self.format.deep_view(),
        }
    }
}

/// Why arguments did not lead to a run.
#[derive(Debug, Clone, PartialEq, Eq)]
pub enum DiscoverUsage {
    /// Help was asked for.
    Help,
    /// An argument was not understood: what to tell the user.
    Fault(Vec<String>),
}

/// The model of a [`DiscoverUsage`].
pub enum DiscoverUsageView {
    /// Help was asked for.
    Help,
    /// An argument was not understood.
    Fault(Seq<Seq<char>>),
}

impl DeepView for DiscoverUsage {
    type V = DiscoverUsageView;

    open spec fn deep_view(&self) -> DiscoverUsageView {
        match self {
            DiscoverUsage::Help => DiscoverUsageView::Help,
            DiscoverUsage::Fault(lines) => DiscoverUsageView::Fault(lines.deep_view()),
        }
    }
}

impl DiscoverUsage {
    /// The exit code: 0 for help, 1 for a fault.
    pub fn exit_code(&self) -> (res: i32)
        ensures
            res == (match self {
                DiscoverUsage::Help => 0i32,
                DiscoverUsage::Fault(_) => 1i32,
            }),
    {
        match self {
            DiscoverUsage::Help => 0,
            DiscoverUsage::Fault(_) => 1,
        }
    }

    fn fault(line: String) -> (res: DiscoverUsage)
        ensures
            res.deep_view() == DiscoverUsageView::Fault(seq![line@]),
    {
        let lines = vec![line];
        assert(lines.deep_view() =~= seq![line@]);
        DiscoverUsage::Fault(lines)
    }
}

/// The families that a comma-separated list names.
pub open spec fn family_list(s: Seq<char>) -> Seq<Seq<char>> {
    text::split_on(s, ',').map_values(|p: Seq<char>| text::lowercase(text::trimmed(p)))
}

fn read_families(s: &str) -> (res: Vec<String>)
    ensures
        res.deep_view() == family_list(s@),
{
    let parts = text::split(s, ',');
    let mut out: Vec<String> = Vec::new();
    let mut i: usize = 0;
    while i < parts.len()
        invariant
            i == out.len() <= parts.len(),
            parts.deep_view() == text::split_on(s@, ','),
            forall|j: int|
                0 <= j < i ==> (#[trigger] out@[j])@ == text::lowercase(
                    text::trimmed(parts@[j]@),
                ),
        decreases parts.len() - i,
    {
        out.push(text::lower(parts[i].trim()));
        i += 1;
    }
    proof {
        assert forall|j: int| 0 <= j < out.len() implies out.deep_view()[j] == family_list(s@)[j] by {
            assert(parts.deep_view()[j] == parts@[j]@);
            assert(out@[j]@ == text::lowercase(text::trimmed(parts@[j]@)));
        }
        assert(out.deep_view() =~= family_list(s@));
    }
    out
}

/// Either the arguments or why they did not lead to a run.
pub type ParsedArgs = Result<DiscoverArgsView, DiscoverUsageView>;

/// A fault that is told in one line.
pub open spec fn fault(line: Seq<char>) -> ParsedArgs {
    Err(DiscoverUsageView::Fault(seq![line]))
}

/// The arguments with the options from place `i` on taken in.
pub open spec fn discover_options(
    args: Seq<Seq<char>>,
    i: int,
    given: DiscoverArgsView,
) -> ParsedArgs
    decreases args.len() - i,
{
    if i >= args.len() {
        Ok(given)
    } else {
        let arg = args[i];
        let has_value = i + 1 < args.len();
        let value = args[i + 1];
        if arg == "--families"@ {
            if !has_value {
                fault("--families requires a value (e.g. socrata,opendatasoft)"@)
            } else {
                discover_options(
                    args,
                    i + 2,
                    DiscoverArgsView { families: family_list(value), ..given },
                )
            }
        } else if arg == "--metro"@ {
            if !has_value {
                fault("--metro requires a value"@)
            } else {
                discover_options(args, i + 2, DiscoverArgsView { metro: Some(value), ..given })
            }
        } else if arg == "--limit"@ {
            if !has_value {
                fault("--limit requires a value"@)
            } else {
                match text::parsed_up_to(value, usize::MAX as nat) {
                    Some(n) => discover_options(
                        args,
                        i + 2,
                        DiscoverArgsView { limit: Some(n as usize), ..given },
                    ),
                    None => fault("invalid --limit value: "@ + text::number_complaint(value)),
                }
            }
        } else if arg == "--json"@ {
            discover_options(args, i + 1, DiscoverArgsView { json_output: true, ..given })
        } else if arg == "--from-holes"@ {
            if !has_value {
                fault("--from-holes requires a path to a JSON holes file"@)
            } else {
                discover_options(
                    args,
                    i + 2,
                    DiscoverArgsView { from_holes: Some(value), ..given },
                )
            }
        } else if arg == "--top"@ {
            if !has_value {
                fault("--top requires a value"@)
            } else {
                match text::parsed_up_to(value, usize::MAX as nat) {
                    Some(n) => discover_options(
                        args,
                        i + 2,
                        DiscoverArgsView { top_n: Some(n as usize), ..given },
                    ),
                    None => fault("invalid --top value: "@ + text::number_complaint(value)),
                }
            }
        } else if arg == "--format"@ {
            if !has_value {
                fault("--format requires a value (json or table)"@)
            } else {
                let format = text::lowercase(value);
                if format != "json"@ && format != "table"@ {
                    fault("--format must be 'json' or 'table'"@)
                } else {
                    discover_options(
                        args,
                        i + 2,
                        DiscoverArgsView { format: Some(format), ..given },
                    )
                }
            }
        } else if arg == "--help"@ || arg == "-h"@ {
            Err(DiscoverUsageView::Help)
        } else {
            Err(
                DiscoverUsageView::Fault(
                    seq![
                        "unknown discover argument: "@ + text::quoted(arg),
                        "Run `homeward discover --help` for usage."@,
                    ],
                ),
            )
        }
    }
}

/// What holds without any option: both families, no filter, no cap, a table.
pub open spec fn default_args() -> DiscoverArgsView {
    DiscoverArgsView {
        families: seq!["socrata"@, "opendatasoft"@],
        metro: None,
        limit: None,
        json_output: false,
        from_holes: None,
        top_n: None,
        format: None,
    }
}

impl DiscoverArgs {
    fn default_args() -> (res: DiscoverArgs)
        ensures
            res.deep_view() == default_args(),
    {
        let families = vec!["socrata".to_owned(), "opendatasoft".to_owned()];
        assert(families.deep_view() =~= seq!["socrata"@, "opendatasoft"@]);
        DiscoverArgs {
            families,
            metro: None,
            limit: None,
            json_output: false,
            from_holes: None,
            top_n: None,
            format: None,
        }
    }

    /// Parses `discover` subcommand arguments.
    pub fn parse(args: &Vec<String>) -> (res: Result<Self, DiscoverUsage>)
        ensures
            outcome::of(res) == discover_options(args.deep_view(), 0, default_args()),
    {
        let mut given = DiscoverArgs::default_args();
        let ghost all = args.deep_view();
        let mut i: usize = 0;
        while i < args.len()
            invariant
                i <= args.len(),
                all == args.deep_view(),
                discover_options(all, i as int, given.deep_view()) == discover_options(
                    all,
                    0,
                    default_args(),
                ),
            decreases args.len() - i,
        {
            proof {
                assert(all[i as int] == args@[i as int]@);
                assert(i + 1 < all.len() ==> all[i + 1] == args@[i + 1]@);
            }
            let arg = args[i].as_str();
            let has_value = i + 1 < args.len();
            if text::same(arg, "--families") {
                if !has_value {
                    return Err(
                        DiscoverUsage::fault(
                            "--families requires a value (e.g. socrata,opendatasoft)".to_owned(),
                        ),
                    );
                }
                given.families = read_families(&args[i + 1]);
                i += 2;
            } else if text::same(arg, "--metro") {
                if !has_value {
                    return Err(DiscoverUsage::fault("--metro requires a value".to_owned()));
                }
                given.metro = Some(args[i + 1].clone());
                i += 2;
            } else if text::same(arg, "--limit") {
                if !has_value {
                    return Err(DiscoverUsage::fault("--limit requires a value".to_owned()));
                }
                match text::parse_usize(&args[i + 1]) {
                    Ok(n) => {
                        given.limit = Some(n);
                    },
                    Err(e) => return Err(
                        DiscoverUsage::fault(
                            "invalid --limit value: ".to_owned().concat(&e),
                        ),
                    ),
                }
                i += 2;
            } else if text::same(arg, "--json") {
                given.json_output = true;
                i += 1;
            } else if text::same(arg, "--from-holes") {
                if !has_value {
                    return Err(
                        DiscoverUsage::fault(
                            "--from-holes requires a path to a JSON holes file".to_owned(),
                        ),
                    );
                }
                given.from_holes = Some(args[i + 1].clone());
                i += 2;
            } else if text::same(arg, "--top") {
                if !has_value {
                    return Err(DiscoverUsage::fault("--top requires a value".to_owned()));
                }
                match text::parse_usize(&args[i + 1]) {
                    Ok(n) => {
                        given.top_n = Some(n);
                    },
                    Err(e) => return Err(
                        DiscoverUsage::fault("invalid --top value: ".to_owned().concat(&e)),
                    ),
                }
                i += 2;
            } else if text::same(arg, "--format") {
                if !has_value {
                    return Err(
                        DiscoverUsage::fault(
                            "--format requires a value (json or table)".to_owned(),
                        ),
                    );
                }
                let format = text::lower(&args[i + 1]);
                if !text::same(&format, "json") && !text::same(&format, "table") {
                    return Err(
                        DiscoverUsage::fault("--format must be 'json' or 'table'".to_owned()),
                    );
                }
                given.format = Some(format);
                i += 2;
            } else if text::same(arg, "--help") || text::same(arg, "-h") {
                return Err(DiscoverUsage::Help);
            } else {
                let lines = vec![
                    "unknown discover argument: ".to_owned().concat(&text::quote(arg)),
                    "Run `homeward discover --help` for usage.".to_owned(),
                ];
                assert(lines.deep_view() =~= seq![
                    "unknown discover argument: "@ + text::quoted(arg@),
                    "Run `homeward discover --help` for usage."@,
                ]);
                return Err(DiscoverUsage::Fault(lines));
            }
        }
        Ok(given)
    }

    /// Whether hole candidates are printed as JSON: as the format says, or else
    /// as the flag says.
    pub fn holes_as_json(&self) -> (res: bool)
        ensures
            res == (match self.format {
                Some(f) => f@ == "json"@,
                None => self.json_output,
            }),
    {
        match &self.format {
            Some(f) => text::same(f, "json"),
            None => self.json_output,
        }
    }
}

// ---------------------------------------------------------------------------
// Output
// ---------------------------------------------------------------------------

/// Which catalog a family's name stands for.
#[derive(Debug, Clone, Copy, PartialEq, Eq, Structural)]
pub enum FamilyChoice {
    /// A catalog that can be crawled.
    Crawl(CandidateFamily),
    /// ArcGIS, which has no such catalog.
    ArcGis,
    /// No family that is known.
    Unknown,
}

/// Which catalog a family's name stands for.
pub open spec fn family_choice(name: Seq<char>) -> FamilyChoice {
    if name == "socrata"@ {
        FamilyChoice::Crawl(CandidateFamily::Socrata)
    } else if name == "opendatasoft"@ {
        FamilyChoice::Crawl(CandidateFamily::OpenDataSoft)
    } else if name == "arcgis"@ {
        FamilyChoice::ArcGis
    } else {
        FamilyChoice::Unknown
    }
}

/// Which catalog a family's name stands for.
pub fn choose_family(name: &str) -> (res: FamilyChoice)
    ensures
        res == family_choice(name@),
{
    if text::same(name, "socrata") {
        FamilyChoice::Crawl(CandidateFamily::Socrata)
    } else if text::same(name, "opendatasoft") {
        FamilyChoice::Crawl(CandidateFamily::OpenDataSoft)
    } else if text::same(name, "arcgis") {
        FamilyChoice::ArcGis
    } else {
        FamilyChoice::Unknown
    }
}

/// What the user is told of a family that is not crawled.
pub open spec fn skipped_note(name: Seq<char>, holes: bool) -> Option<Seq<char>> {
    match family_choice(name) {
        FamilyChoice::Crawl(_) => None,
        FamilyChoice::ArcGis => Some(
            if holes {
                "discover --from-holes: WARNING \u{2014} ArcGIS Hub has no single federated catalog. Use `homeward probe --family arcgis <service_url>` directly."@
            } else {
                "discover: WARNING \u{2014} ArcGIS Hub has no single federated catalog of the same shape as Socrata or OpenDataSoft.  ArcGIS discovery is not supported by this subcommand.  To probe a known ArcGIS Feature Service layer, use: homeward probe --family arcgis <service_url>"@
            },
        ),
        FamilyChoice::Unknown => Some(
            if holes {
                "discover --from-holes: unknown family "@ + text::quoted(name) + "; skipping"@
            } else {
                "discover: unknown family "@ + text::quoted(name)
                    + "; supported: socrata, opendatasoft"@
            },
        ),
    }
}

/// What the user is told of a family that is not crawled.
pub fn skipped_family_note(name: &str, holes: bool) -> (res: Option<String>)
    ensures
        res.deep_view() == skipped_note(name@, holes),
{
    match choose_family(name) {
        FamilyChoice::Crawl(_) => None,
        FamilyChoice::ArcGis => Some(
            if holes {
                "discover --from-holes: WARNING \u{2014} ArcGIS Hub has no single federated catalog. Use `homeward probe --family arcgis <service_url>` directly.".to_owned()
            } else {
                "discover: WARNING \u{2014} ArcGIS Hub has no single federated catalog of the same shape as Socrata or OpenDataSoft.  ArcGIS discovery is not supported by this subcommand.  To probe a known ArcGIS Feature Service layer, use: homeward probe --family arcgis <service_url>".to_owned()
            },
        ),
        FamilyChoice::Unknown => Some(
            if holes {
                "discover --from-holes: unknown family ".to_owned().concat(
                    &text::quote(name),
                ).concat("; skipping")
            } else {
                "discover: unknown family ".to_owned().concat(&text::quote(name)).concat(
                    "; supported: socrata, opendatasoft",
                )
            },
        ),
    }
}

/// Whether a text fits into `max` bytes, or can be cut there between two
/// characters.
pub open spec fn cuts_cleanly(s: Seq<char>, max: int) -> bool {
    utf8::encode_utf8(s).len() <= max || utf8::is_char_boundary(utf8::encode_utf8(s), max)
}

/// A text, or the first `max` bytes of it.
pub open spec fn cut(s: Seq<char>, max: int) -> Seq<char> {
    if utf8::encode_utf8(s).len() <= max {
        s
    } else {
        utf8::decode_utf8(utf8::encode_utf8(s).subrange(0, max))
    }
}

/// Whether a text fits into `max` bytes, or can be cut there between two
/// characters.
pub fn can_truncate(s: &str, max: usize) -> (res: bool)
    ensures
        res == cuts_cleanly(s@, max as int),
{
    s.as_bytes().len() <= max || s.is_char_boundary(max)
}

/// A text, or the first `max` bytes of it.
pub fn truncate(s: &str, max: usize) -> (res: &str)
    requires
        cuts_cleanly(s@, max as int),
    ensures
        res@ == cut(s@, max as int),
{
    if s.as_bytes().len() <= max {
        s
    } else {
        let (head, _) = s.split_at(max);
        proof {
            utf8::encode_utf8_decode_utf8(head@);
        }
        head
    }
}

/// ASCII text is cut after `max` characters.
pub proof fn ascii_is_cut_by_characters(s: Seq<char>, max: int)
    requires
        text::all_ascii(s),
        0 <= max,
    ensures
        cuts_cleanly(s, max),
        cut(s, max) == text::first_chars(s, max as nat),
{
    utf8::is_ascii_chars_encode_utf8(s);
    if s.len() > max {
        let head = s.take(max);
        assert(utf8::is_ascii_chars(head));
        utf8::is_ascii_chars_encode_utf8(head);
        assert(utf8::encode_utf8(s).subrange(0, max) =~= utf8::encode_utf8(head));
        utf8::encode_utf8_decode_utf8(head);
        utf8::encode_utf8_valid_utf8(s);
        let bytes = utf8::encode_utf8(s);
        assert(bytes[max] == s[max] as u8);
        utf8::is_char_boundary_iff_not_is_continuation_byte(bytes, max);
        let b = bytes[max];
        assert(b < 128 ==> !utf8::is_continuation_byte(b)) by (bit_vector);
    }
}

/// A row of columns, each filled up to its width and two spaces apart.
pub open spec fn table_line(cells: Seq<(Seq<char>, nat)>) -> Seq<char>
    decreases cells.len(),
{
    if cells.len() == 0 {
        Seq::empty()
    } else if cells.len() == 1 {
        text::padded(cells[0].0, cells[0].1)
    } else {
        table_line(cells.drop_last()) + "  "@ + text::padded(cells.last().0, cells.last().1)
    }
}

/// A row of columns, each filled up to its width and two spaces apart.
fn write_line(cells: &Vec<(String, usize)>) -> (res: String)
    ensures
        res@ == table_line(
            cells@.map_values(|c: (String, usize)| (c.0@, c.1 as nat)),
        ),
{
    let mut out = String::new();
    let ghost all = cells@.map_values(|c: (String, usize)| (c.0@, c.1 as nat));
    let mut i: usize = 0;
    assert(all.take(0) =~= Seq::empty());
    while i < cells.len()
        invariant
            i <= cells.len(),
            all == cells@.map_values(|c: (String, usize)| (c.0@, c.1 as nat)),
            out@ == table_line(all.take(i as int)),
        decreases cells.len() - i,
    {
        proof {
            assert(all.take(i + 1).drop_last() == all.take(i as int));
            assert(all.take(i + 1).last() == (cells@[i as int].0@, cells@[i as int].1 as nat));
        }
        if i > 0 {
            out.append("  ");
        }
        let ghost before = out@;
        out.append(&text::pad(&cells[i].0, cells[i].1));
        proof {
            if i == 0 {
                assert(out@ =~= text::padded(all[0].0, all[0].1));
            }
        }
        i += 1;
    }
    proof {
        assert(all.take(cells.len() as int) == all);
    }
    out
}

/// The two lines of a candidate in the table.
pub open spec fn candidate_lines(rank: nat, c: CandidateView) -> Seq<Seq<char>> {
    seq![
        table_line(
            seq![
                (text::decimal(rank), 4nat),
                (c.family.name(), 14nat),
                (cut(c.domain_or_base_url, 35), 35nat),
                (cut(c.dataset_id, 22), 22nat),
                (text::decimal(c.score), 6nat),
                (text::joined(c.matched_signals, ", "@), 0nat),
            ],
        ),
        "       probe: "@ + c.probe_cmd,
    ]
}

/// The table of candidates: a note, a heading, and two lines for each.
pub open spec fn candidate_table(candidates: Seq<CandidateView>) -> Seq<Seq<char>>
    decreases candidates.len(),
{
    if candidates.len() == 0 {
        seq![
            "NOTE: candidates are unvalidated \u{2014} run the probe_cmd to confirm each."@,
            ""@,
            table_line(
                seq![
                    ("rank"@, 4nat),
                    ("family"@, 14nat),
                    ("domain/base_url"@, 35nat),
                    ("dataset_id"@, 22nat),
                    ("score"@, 6nat),
                    ("signals"@, 0nat),
                ],
            ),
            text::repeated('-', 120),
        ]
    } else {
        candidate_table(candidates.drop_last()) + candidate_lines(
            candidates.len(),
            candidates.last(),
        )
    }
}

/// Whether a candidate's columns can be cut to the table's widths.
pub open spec fn fits_table(c: CandidateView) -> bool {
    cuts_cleanly(c.domain_or_base_url, 35) && cuts_cleanly(c.dataset_id, 22)
}

/// Prints candidates as a table.
pub fn print_candidates(candidates: &Vec<Candidate>) -> (res: Vec<String>)
    requires
        forall|i: int|
            0 <= i < candidates.len() ==> fits_table(#[trigger] candidates.deep_view()[i]),
    ensures
        res.deep_view() == candidate_table(candidates.deep_view()),
{
    let heading = vec![
        ("rank".to_owned(), 4usize),
        ("family".to_owned(), 14usize),
        ("domain/base_url".to_owned(), 35usize),
        ("dataset_id".to_owned(), 22usize),
        ("score".to_owned(), 6usize),
        ("signals".to_owned(), 0usize),
    ];
    proof {
        assert(heading@.map_values(|c: (String, usize)| (c.0@, c.1 as nat)) =~= seq![
            ("rank"@, 4nat),
            ("family"@, 14nat),
            ("domain/base_url"@, 35nat),
            ("dataset_id"@, 22nat),
            ("score"@, 6nat),
            ("signals"@, 0nat),
        ]);
    }
    let mut out = vec![
        "NOTE: candidates are unvalidated \u{2014} run the probe_cmd to confirm each.".to_owned(),
        "".to_owned(),
        write_line(&heading),
        text::repeat('-', 120),
    ];
    let ghost all = candidates.deep_view();
    let mut i: usize = 0;
    proof {
        assert(all.take(0) =~= Seq::empty());
        assert(out.deep_view() =~= candidate_table(all.take(0)));
    }
    while i < candidates.len()
        invariant
            i <= candidates.len(),
            all == candidates.deep_view(),
            forall|j: int| 0 <= j < candidates.len() ==> fits_table(#[trigger] all[j]),
            out.deep_view() =~= candidate_table(all.take(i as int)),
        decreases candidates.len() - i,
    {
        let c = &candidates[i];
        proof {
            assert(all[i as int] == c.deep_view());
            assert(all.take(i + 1).drop_last() == all.take(i as int));
            assert(all.take(i + 1).last() == c.deep_view());
        }
        let cells = vec![
            (text::write_decimal(i as u64 + 1), 4usize),
            (c.family.label(), 14usize),
            (truncate(&c.domain_or_base_url, 35).to_owned(), 35usize),
            (truncate(&c.dataset_id, 22).to_owned(), 22usize),
            (text::write_decimal(c.score as u64), 6usize),
            (text::join(&c.matched_signals, ", "), 0usize),
        ];
        proof {
            let v = c.deep_view();
            assert(cells@.map_values(|c: (String, usize)| (c.0@, c.1 as nat)) =~= seq![
                (text::decimal((i + 1) as nat), 4nat),
                (v.family.name(), 14nat),
                (cut(v.domain_or_base_url, 35), 35nat),
                (cut(v.dataset_id, 22), 22nat),
                (text::decimal(v.score), 6nat),
                (text::joined(v.matched_signals, ", "@), 0nat),
            ]);
        }
        let ghost before = out.deep_view();
        out.push(write_line(&cells));
        out.push("       probe: ".to_owned().concat(&c.probe_cmd));
        proof {
            assert(out.deep_view() =~= before + candidate_lines((i + 1) as nat, c.deep_view()));
        }
        i += 1;
    }
    proof {
        assert(all.take(candidates.len() as int) == all);
    }
    out
}

/// The model of a [`HoleCandidateRow`].
pub struct HoleRowView {
    /// Region name for the hole.
    pub hole_region: Seq<char>,
    /// Estimated population in the uncovered area.
    pub estimated_missed_population: nat,
    /// The candidate.
    pub candidate: CandidateView,
}

impl DeepView for HoleCandidateRow {
    type V = HoleRowView;

    open spec fn deep_view(&self) -> HoleRowView {
        HoleRowView {
            hole_region: self.hole_region@,
            estimated_missed_population: self.estimated_missed_population as nat,
            candidate: self.candidate.deep_view(),
        }
    }
}

/// The two lines of a hole candidate in the table.
pub open spec fn hole_lines(rank: nat, row: HoleRowView) -> Seq<Seq<char>> {
    seq![
        table_line(
            seq![
                (text::decimal(rank), 4nat),
                (cut(row.hole_region, 28), 28nat),
                (text::decimal(row.estimated_missed_population), 12nat),
                (row.candidate.family.name(), 14nat),
                (cut(row.candidate.domain_or_base_url, 35), 35nat),
                (text::decimal(row.candidate.score), 6nat),
            ],
        ),
        "       probe: "@ + row.candidate.probe_cmd,
    ]
}

/// The table of hole candidates: two notes, a heading, and two lines for each.
pub open spec fn hole_table(rows: Seq<HoleRowView>) -> Seq<Seq<char>>
    decreases rows.len(),
{
    if rows.len() == 0 {
        seq![
            "NOTE: candidates are UNVALIDATED proposals \u{2014} run probe_cmd to confirm each."@,
            "NOTE: population figures are estimates inherited from coverage analysis."@,
            ""@,
            table_line(
                seq![
                    ("rank"@, 4nat),
                    ("hole_region"@, 28nat),
                    ("est_missed"@, 12nat),
                    ("family"@, 14nat),
                    ("domain/base_url"@, 35nat),
                    ("score"@, 6nat),
                ],
            ),
            text::repeated('-', 120),
        ]
    } else {
        hole_table(rows.drop_last()) + hole_lines(rows.len(), rows.last())
    }
}

/// Whether a row's columns can be cut to the table's widths.
pub open spec fn fits_hole_table(row: HoleRowView) -> bool {
    cuts_cleanly(row.hole_region, 28) && cuts_cleanly(row.candidate.domain_or_base_url, 35)
}

/// Prints hole candidates as a table.
pub fn print_hole_rows(rows: &Vec<HoleCandidateRow>) -> (res: Vec<String>)
    requires
        forall|i: int| 0 <= i < rows.len() ==> fits_hole_table(#[trigger] rows.deep_view()[i]),
    ensures
        res.deep_view() == hole_table(rows.deep_view()),
{
    let heading = vec![
        ("rank".to_owned(), 4usize),
        ("hole_region".to_owned(), 28usize),
        ("est_missed".to_owned(), 12usize),
        ("family".to_owned(), 14usize),
        ("domain/base_url".to_owned(), 35usize),
        ("score".to_owned(), 6usize),
    ];
    proof {
        assert(heading@.map_values(|c: (String, usize)| (c.0@, c.1 as nat)) =~= seq![
            ("rank"@, 4nat),
            ("hole_region"@, 28nat),
            ("est_missed"@, 12nat),
            ("family"@, 14nat),
            ("domain/base_url"@, 35nat),
            ("score"@, 6nat),
        ]);
    }
    let mut out = vec![
        "NOTE: candidates are UNVALIDATED proposals \u{2014} run probe_cmd to confirm each.".to_owned(),
        "NOTE: population figures are estimates inherited from coverage analysis.".to_owned(),
        "".to_owned(),
        write_line(&heading),
        text::repeat('-', 120),
    ];
    let ghost all = rows.deep_view();
    let mut i: usize = 0;
    proof {
        assert(all.take(0) =~= Seq::empty());
        assert(out.deep_view() =~= hole_table(all.take(0)));
    }
    while i < rows.len()
        invariant
            i <= rows.len(),
            all == rows.deep_view(),
            forall|j: int| 0 <= j < rows.len() ==> fits_hole_table(#[trigger] all[j]),
            out.deep_view() =~= hole_table(all.take(i as int)),
        decreases rows.len() - i,
    {
        let row = &rows[i];
        proof {
            assert(all[i as int] == row.deep_view());
            assert(all.take(i + 1).drop_last() == all.take(i as int));
            assert(all.take(i + 1).last() == row.deep_view());
        }
        let cells = vec![
            (text::write_decimal(i as u64 + 1), 4usize),
            (truncate(&row.hole_region, 28).to_owned(), 28usize),
            (text::write_decimal(row.estimated_missed_population), 12usize),
            (row.candidate.family.label(), 14usize),
            (truncate(&row.candidate.domain_or_base_url, 35).to_owned(), 35usize),
            (text::write_decimal(row.candidate.score as u64), 6usize),
        ];
        proof {
            let v = row.deep_view();
            assert(cells@.map_values(|c: (String, usize)| (c.0@, c.1 as nat)) =~= seq![
                (text::decimal((i + 1) as nat), 4nat),
                (cut(v.hole_region, 28), 28nat),
                (text::decimal(v.estimated_missed_population), 12nat),
                (v.candidate.family.name(), 14nat),
                (cut(v.candidate.domain_or_base_url, 35), 35nat),
                (text::decimal(v.candidate.score), 6nat),
            ]);
        }
        let ghost before = out.deep_view();
        out.push(write_line(&cells));
        out.push("       probe: ".to_owned().concat(&row.candidate.probe_cmd));
        proof {
            assert(out.deep_view() =~= before + hole_lines((i + 1) as nat, row.deep_view()));
        }
        i += 1;
    }
    proof {
        assert(all.take(rows.len() as int) == all);
    }
    out
}

/// What a command prints and returns.
#[derive(Debug, Clone, PartialEq, Eq)]
pub struct DiscoverReport {
    /// The exit code.
    pub code: i32,
    /// Lines for the standard output.
    pub stdout: Vec<String>,
    /// Lines for the error output.
    pub stderr: Vec<String>,
    /// Whether the rows are printed as a JSON document.
    pub as_json: bool,
}

/// The model of a [`DiscoverReport`].
pub struct DiscoverReportView {
    /// The exit code.
    pub code: int,
    /// Lines for the standard output.
    pub stdout: Seq<Seq<char>>,
    /// Lines for the error output.
    pub stderr: Seq<Seq<char>>,
    /// Whether the rows are printed as a JSON document.
    pub as_json: bool,
}

impl DeepView for DiscoverReport {
    type V = DiscoverReportView;

    open spec fn deep_view(&self) -> DiscoverReportView {
        DiscoverReportView {
            code: self.code as int,
            stdout: self.stdout.deep_view(),
            stderr: self.stderr.deep_view(),
            as_json: self.as_json,
        }
    }
}

/// A report of a successful command: a remark where there are no rows, and
/// otherwise the rows, as a document or as a table.
pub open spec fn rows_report(
    empty: bool,
    remark: Seq<char>,
    json: bool,
    table: Seq<Seq<char>>,
) -> DiscoverReportView {
    DiscoverReportView {
        code: 0,
        stdout: if empty || json {
            Seq::empty()
        } else {
            table
        },
        stderr: if empty {
            seq![remark]
        } else {
            Seq::empty()
        },
        as_json: !empty && json,
    }
}

/// What is said where no candidate was found.
pub const NO_CANDIDATES: &'static str =
    "discover: no candidates found (try broader --families or no --metro filter)";

/// What is said where no candidate was found for a hole.
pub const NO_HOLE_ROWS: &'static str =
    "discover --from-holes: no candidates found for any hole region.";

/// What is said where there are no holes.
pub const NO_HOLES: &'static str =
    "discover --from-holes: hole list is empty \u{2014} full coverage, no candidates needed.";

fn remark_report(remark: &str) -> (res: DiscoverReport)
    ensures
        res.deep_view() == (DiscoverReportView {
            code: 0,
            stdout: Seq::empty(),
            stderr: seq![remark@],
            as_json: false,
        }),
{
    let stdout: Vec<String> = Vec::new();
    let stderr = vec![remark.to_owned()];
    assert(stdout.deep_view() =~= Seq::empty());
    assert(stderr.deep_view() =~= seq![remark@]);
    DiscoverReport { code: 0, stdout, stderr, as_json: false }
}

fn document_report() -> (res: DiscoverReport)
    ensures
        res.deep_view() == (DiscoverReportView {
            code: 0,
            stdout: Seq::empty(),
            stderr: Seq::empty(),
            as_json: true,
        }),
{
    let stdout: Vec<String> = Vec::new();
    let stderr: Vec<String> = Vec::new();
    assert(stdout.deep_view() =~= Seq::empty());
    assert(stderr.deep_view() =~= Seq::empty());
    DiscoverReport { code: 0, stdout, stderr, as_json: true }
}

/// What the `discover` command prints and returns for ranked candidates.
pub fn report_candidates(candidates: &Vec<Candidate>, json: bool) -> (res: DiscoverReport)
    requires
        !json ==> forall|i: int|
            0 <= i < candidates.len() ==> fits_table(#[trigger] candidates.deep_view()[i]),
    ensures
        res.deep_view() == rows_report(
            candidates.len() == 0,
            NO_CANDIDATES@,
            json,
            candidate_table(candidates.deep_view()),
        ),
{
    if candidates.len() == 0 {
        return remark_report(NO_CANDIDATES);
    }
    if json {
        return document_report();
    }
    let stderr: Vec<String> = Vec::new();
    assert(stderr.deep_view() =~= Seq::empty());
    DiscoverReport { code: 0, stdout: print_candidates(candidates), stderr, as_json: false }
}

/// What the `discover --from-holes` command prints and returns for ranked rows.
pub fn report_hole_rows(rows: &Vec<HoleCandidateRow>, json: bool) -> (res: DiscoverReport)
    requires
        !json ==> forall|i: int|
            0 <= i < rows.len() ==> fits_hole_table(#[trigger] rows.deep_view()[i]),
    ensures
        res.deep_view() == rows_report(
            rows.len() == 0,
            NO_HOLE_ROWS@,
            json,
            hole_table(rows.deep_view()),
        ),
{
    if rows.len() == 0 {
        return remark_report(NO_HOLE_ROWS);
    }
    if json {
        return document_report();
    }
    let stderr: Vec<String> = Vec::new();
    assert(stderr.deep_view() =~= Seq::empty());
    DiscoverReport { code: 0, stdout: print_hole_rows(rows), stderr, as_json: false }
}

/// What the user is told of a catalog that was crawled: how many candidates it
/// has, or why it could not be read.
pub open spec fn crawled_note(
    family: CandidateFamily,
    found: Result<nat, ConnectorErrorView>,
) -> Seq<char> {
    match (family, found) {
        (CandidateFamily::Socrata, Ok(n)) => "discover: "@ + text::decimal(n)
            + " Socrata candidates (pre-dedup)"@,
        (CandidateFamily::OpenDataSoft, Ok(n)) => "discover: "@ + text::decimal(n)
            + " ODS candidates (pre-dedup)"@,
        (CandidateFamily::Socrata, Err(e)) => "discover: Socrata catalog error: "@ + e.message(),
        (CandidateFamily::OpenDataSoft, Err(e)) => "discover: OpenDataSoft catalog error: "@
            + e.message(),
    }
}

/// What the user is told of a catalog that was crawled.
pub fn note_crawled(family: CandidateFamily, found: &Result<usize, ConnectorError>) -> (res: String)
    ensures
        res@ == crawled_note(
            family,
            match found {
                Ok(n) => Ok(*n as nat),
                Err(e) => Err(e.deep_view()),
            },
        ),
{
    match found {
        Ok(n) => {
            let count = "discover: ".to_owned().concat(&text::write_decimal(*n as u64));
            match family {
                CandidateFamily::Socrata => count.concat(" Socrata candidates (pre-dedup)"),
                CandidateFamily::OpenDataSoft => count.concat(" ODS candidates (pre-dedup)"),
            }
        },
        Err(e) => match family {
            CandidateFamily::Socrata => "discover: Socrata catalog error: ".to_owned().concat(
                &e.message(),
            ),
            CandidateFamily::OpenDataSoft => "discover: OpenDataSoft catalog error: ".to_owned().concat(
                &e.message(),
            ),
        },
    }
}

/// What the user is told of a catalog that could not be read for a region.
pub open spec fn region_note(
    family: CandidateFamily,
    region: Seq<char>,
    e: ConnectorErrorView,
) -> Seq<char> {
    (match family {
        CandidateFamily::Socrata => "discover --from-holes: Socrata error for region "@,
        CandidateFamily::OpenDataSoft => "discover --from-holes: ODS error for region "@,
    }) + text::quoted(region) + ": "@ + e.message()
}

/// What the user is told of a catalog that could not be read for a region.
pub fn note_region_error(family: CandidateFamily, region: &str, e: &ConnectorError) -> (res: String)
    ensures
        res@ == region_note(family, region@, e.deep_view()),
{
    let start = match family {
        CandidateFamily::Socrata => "discover --from-holes: Socrata error for region ",
        CandidateFamily::OpenDataSoft => "discover --from-holes: ODS error for region ",
    };
    start.to_owned().concat(&text::quote(region)).concat(": ").concat(&e.message())
}

/// What the user is told before holes are worked on.
pub fn note_holes(holes: usize, families: &Vec<String>) -> (res: String)
    ensures
        res@ == "discover --from-holes: "@ + text::decimal(holes as nat) + " hole(s), querying "@
            + text::joined(families.deep_view(), ", "@) + " family/families\u{2026}"@,
{
    "discover --from-holes: ".to_owned().concat(&text::write_decimal(holes as u64)).concat(
        " hole(s), querying ",
    ).concat(&text::join(families, ", ")).concat(" family/families\u{2026}")
}

/// The help text of the `discover` command, line by line.
pub const DISCOVER_HELP: [&'static str; 43] = [
    "homeward discover \u{2014} crawl open-data catalogs for animal-intake candidates",
    "",
    "USAGE:",
    "  homeward discover [--families <families>] [--metro <str>] [--limit N] [--json]",
    "  homeward discover --from-holes <holes.json> [--top N] [--families \u{2026}] [--format json|table]",
    "",
    "STANDARD MODE OPTIONS:",
    "  --families <list>  Comma-separated list of families to query.",
    "                     Supported: socrata, opendatasoft",
    "                     Default: socrata,opendatasoft",
    "  --metro <str>      Optional metro/city filter to narrow results.",
    "  --limit N          Cap output to N candidates.",
    "  --json             Emit JSON array instead of human-readable table.",
    "  --help             Show this help message.",
    "",
    "FROM-HOLES MODE OPTIONS:",
    "  --from-holes <path>  Path to a JSON file containing a list of CoverageHole",
    "                       objects (from homeward-catchment-geo or a fixture).",
    "                       Each hole: {lat, lon, radius_km, estimated_missed_population, label?}",
    "  --top N              Cap output to N hole-candidate rows.",
    "  --families <list>    Same as standard mode.",
    "  --format json|table  Output format (default: table).",
    "",
    "  Output rows are ranked by estimated_missed_population descending, then by",
    "  catalog relevance score.  This mode is strictly propose-only: it never",
    "  writes to deploy/sources.toml or registers a connector.",
    "",
    "COVERAGE GAPS:",
    "  arcgis   ArcGIS Hub has no single federated catalog comparable to Socrata or",
    "           OpenDataSoft.  ArcGIS datasets cannot be auto-discovered via this",
    "           subcommand.  To probe a known ArcGIS Feature Service layer, use:",
    "             homeward probe --family arcgis <service_url>",
    "",
    "IMPORTANT:",
    "  Candidates are UNVALIDATED.  This command never writes to deploy/sources.toml.",
    "  Run the `probe_cmd` printed for each candidate to confirm it is a working",
    "  STRAY-bearing animal-intake feed before adding it to sources.toml.",
    "",
    "EXAMPLES:",
    "  homeward discover --limit 20",
    "  homeward discover --families socrata --metro austin --json",
    "  homeward discover --from-holes /tmp/coverage-holes.json --top 20 --format json",
    "  homeward discover --from-holes holes.json --families socrata --top 10",
];

// ---------------------------------------------------------------------------
// Laws
// ---------------------------------------------------------------------------

/// A dataset scores between nothing and seven, and something exactly where a
/// signal was found; nothing is told of a dataset that scores nothing.
pub proof fn score_counts_signals(
    name: Seq<char>,
    description: Seq<char>,
    columns: Seq<Seq<char>>,
)
    ensures
        score_of(name, description, columns).0 <= 7,
        score_of(name, description, columns).0 >= score_of(name, description, columns).1.len(),
        score_of(name, description, columns).0 == 0 <==> score_of(
            name,
            description,
            columns,
        ).1.len() == 0,
{
}

/// Whether every name of `a` is one of `b`, up to the case of ASCII letters.
pub open spec fn all_among(a: Seq<Seq<char>>, b: Seq<Seq<char>>) -> bool {
    forall|i: int|
        0 <= i < a.len() ==> exists|j: int|
            0 <= j < b.len() && text::same_but_case(#[trigger] a[i], #[trigger] b[j])
}

proof fn lemma_column_found_again(
    a: Seq<Seq<char>>,
    b: Seq<Seq<char>>,
    keywords: Seq<&'static str>,
)
    requires
        all_among(a, b),
        any_column_has(a, keywords),
    ensures
        any_column_has(b, keywords),
{
    let i = choose|i: int| 0 <= i < a.len() && column_has(#[trigger] a[i], keywords);
    let j = choose|j: int| 0 <= j < b.len() && text::same_but_case(a[i], #[trigger] b[j]);
    text::case_is_lowered(a[i], b[j]);
    assert(column_has(b[j], keywords));
}

/// A score never falls where columns are added, in whatever order they come and
/// whatever the case of their ASCII letters.
pub proof fn columns_never_lower_a_score(
    name: Seq<char>,
    description: Seq<char>,
    a: Seq<Seq<char>>,
    b: Seq<Seq<char>>,
)
    requires
        all_among(a, b),
    ensures
        score_of(name, description, a).0 <= score_of(name, description, b).0,
{
    if any_column_has(a, INTAKE_TYPE_KEYWORDS@) {
        lemma_column_found_again(a, b, INTAKE_TYPE_KEYWORDS@);
    }
    if any_column_has(a, ANIMAL_TYPE_KEYWORDS@) {
        lemma_column_found_again(a, b, ANIMAL_TYPE_KEYWORDS@);
    }
}

/// Neither the case of ASCII letters, nor the order of the columns, nor one that
/// is there twice changes a score or its signals.
pub proof fn score_ignores_case_and_order(
    name: Seq<char>,
    description: Seq<char>,
    columns: Seq<Seq<char>>,
    other_name: Seq<char>,
    other_description: Seq<char>,
    other_columns: Seq<Seq<char>>,
)
    requires
        text::same_but_case(name, other_name),
        text::same_but_case(description, other_description),
        all_among(columns, other_columns),
        all_among(other_columns, columns),
    ensures
        score_of(name, description, columns) == score_of(
            other_name,
            other_description,
            other_columns,
        ),
{
    text::case_is_lowered(name, other_name);
    text::case_is_lowered(description, other_description);
    if any_column_has(columns, INTAKE_TYPE_KEYWORDS@) {
        lemma_column_found_again(columns, other_columns, INTAKE_TYPE_KEYWORDS@);
    }
    if any_column_has(other_columns, INTAKE_TYPE_KEYWORDS@) {
        lemma_column_found_again(other_columns, columns, INTAKE_TYPE_KEYWORDS@);
    }
    if any_column_has(columns, ANIMAL_TYPE_KEYWORDS@) {
        lemma_column_found_again(columns, other_columns, ANIMAL_TYPE_KEYWORDS@);
    }
    if any_column_has(other_columns, ANIMAL_TYPE_KEYWORDS@) {
        lemma_column_found_again(other_columns, columns, ANIMAL_TYPE_KEYWORDS@);
    }
}

/// No dataset is a candidate of a crawl twice, and every candidate scores
/// something.
pub proof fn no_candidate_twice(crawl: Crawl, i: int, j: int)
    requires
        crawl.wf(),
        0 <= i < j < crawl.candidates.len(),
    ensures
        candidate_key(crawl.candidates.deep_view()[i]) != candidate_key(
            crawl.candidates.deep_view()[j],
        ),
        crawl.candidates.deep_view()[i].score > 0,
        crawl.candidates.deep_view()[j].score > 0,
{
    assert(sound_candidate(
        crawl.candidates.deep_view()[i],
        crawl.family,
        crawl.seen.deep_view(),
    ));
    assert(sound_candidate(
        crawl.candidates.deep_view()[j],
        crawl.family,
        crawl.seen.deep_view(),
    ));
}

/// The rows that are kept come in the order of population, then score, then
/// name, and no row that was left out belongs before one that was kept.
pub proof fn kept_rows_are_the_best(rows: Seq<HoleCandidateRow>, top_n: Option<usize>)
    ensures
        ({
            let all = rank::ranking(rows);
            let kept = capped(all, top_n);
            &&& rank::in_order(kept)
            &&& kept.len() <= rows.len()
            &&& top_n matches Some(n) ==> kept.len() <= n
            &&& forall|i: int, j: int|
                0 <= i < kept.len() && kept.len() <= j < all.len() ==> !(#[trigger] all[j]).above(
                    #[trigger] kept[i],
                )
        }),
{
    rank::ranking_is_sorted(rows);
    let all = rank::ranking(rows);
    let kept = capped(all, top_n);
    assert forall|i: int| 0 <= i < kept.len() implies kept[i] == #[trigger] all[i] by {}
    assert forall|i: int, j: int| 0 <= i < j < kept.len() implies !(#[trigger] kept[j]).above(
        #[trigger] kept[i],
    ) by {
        assert(kept[i] == all[i] && kept[j] == all[j]);
    }
    assert forall|i: int, j: int| 0 <= i < kept.len() && kept.len() <= j < all.len() implies !(
    #[trigger] all[j]).above(#[trigger] kept[i]) by {
        assert(kept[i] == all[i]);
    }
}

/// The phrases that a dataset is known by, each with what it is worth and the
/// signal that it gives; the earlier ones count before the later ones.
pub open spec fn known_phrase(k: int) -> (Seq<char>, int, Seq<char>) {
    if k == 0 {
        ("animal intake"@, 4, "name:animal-intake"@)
    } else if k == 1 {
        ("animal services"@, 3, "name:animal-services"@)
    } else if k == 2 {
        ("shelter intake"@, 3, "name:shelter-intake"@)
    } else if k == 3 {
        ("stray"@, 3, "name:stray"@)
    } else if k == 4 {
        ("shelter"@, 2, "name:shelter"@)
    } else if k == 5 {
        ("animal control"@, 2, "name:animal-control"@)
    } else if k == 6 {
        ("animal"@, 1, "name:animal"@)
    } else {
        ("intake"@, 1, "name:intake"@)
    }
}

/// What is read of a dataset's name and description.
pub open spec fn said_of(name: Seq<char>, description: Seq<char>) -> Seq<char> {
    text::lowercase(name) + seq![' '] + text::lowercase(description)
}

/// Whether phrase `k` occurs in what is said of a dataset, and none before it.
pub open spec fn leads(name: Seq<char>, description: Seq<char>, k: int) -> bool {
    &&& 0 <= k < 8
    &&& text::has(said_of(name, description), known_phrase(k).0)
    &&& forall|h: int|
        0 <= h < k ==> !text::has(said_of(name, description), (#[trigger] known_phrase(h)).0)
}

/// Whether some column's name has a word as a part, in any case of its letters.
pub open spec fn some_column_has(columns: Seq<Seq<char>>, word: Seq<char>) -> bool {
    exists|i: int| 0 <= i < columns.len() && text::has(text::lowercase(#[trigger] columns[i]), word)
}

/// Whether a dataset has a column for the type of the intake.
pub open spec fn has_intake_column(columns: Seq<Seq<char>>) -> bool {
    ||| some_column_has(columns, "intake_type"@)
    ||| some_column_has(columns, "intaketype"@)
    ||| some_column_has(columns, "intake_subtype"@)
    ||| some_column_has(columns, "intake_condition"@)
    ||| some_column_has(columns, "entry_reason"@)
}

/// Whether a dataset has a column for the species.
pub open spec fn has_species_column(columns: Seq<Seq<char>>) -> bool {
    ||| some_column_has(columns, "animal_type"@)
    ||| some_column_has(columns, "animaltype"@)
    ||| some_column_has(columns, "species"@)
}

proof fn lemma_any_column(columns: Seq<Seq<char>>, keywords: Seq<&'static str>)
    ensures
        any_column_has(columns, keywords) <==> exists|k: int|
            0 <= k < keywords.len() && some_column_has(columns, (#[trigger] keywords[k])@),
{
    if any_column_has(columns, keywords) {
        let i = choose|i: int| 0 <= i < columns.len() && column_has(#[trigger] columns[i], keywords);
        let k = choose|k: int|
            0 <= k < keywords.len() && text::has(
                text::lowercase(columns[i]),
                (#[trigger] keywords[k])@,
            );
        assert(text::has(text::lowercase(columns[i]), keywords[k]@));
        assert(some_column_has(columns, keywords[k]@));
    }
    if exists|k: int|
        0 <= k < keywords.len() && some_column_has(columns, (#[trigger] keywords[k])@) {
        let k = choose|k: int|
            0 <= k < keywords.len() && some_column_has(columns, (#[trigger] keywords[k])@);
        let i = choose|i: int|
            0 <= i < columns.len() && text::has(
                text::lowercase(#[trigger] columns[i]),
                keywords[k]@,
            );
        assert(column_has(columns[i], keywords));
    }
}

proof fn lemma_column_words(columns: Seq<Seq<char>>)
    ensures
        any_column_has(columns, INTAKE_TYPE_KEYWORDS@) == has_intake_column(columns),
        any_column_has(columns, ANIMAL_TYPE_KEYWORDS@) == has_species_column(columns),
{
    lemma_any_column(columns, INTAKE_TYPE_KEYWORDS@);
    lemma_any_column(columns, ANIMAL_TYPE_KEYWORDS@);
    let a = INTAKE_TYPE_KEYWORDS@;
    assert(a[0]@ == "intake_type"@ && a[1]@ == "intaketype"@ && a[2]@ == "intake_subtype"@ && a[3]@
        == "intake_condition"@ && a[4]@ == "entry_reason"@);
    let b = ANIMAL_TYPE_KEYWORDS@;
    assert(b[0]@ == "animal_type"@ && b[1]@ == "animaltype"@ && b[2]@ == "species"@);
}

/// A dataset is worth what the leading phrase of its name and description is, two
/// more for a column of intake types and one more for a column of species; each of
/// these gives its signal, in this order.
pub proof fn phrases_and_columns_make_the_score(
    name: Seq<char>,
    description: Seq<char>,
    columns: Seq<Seq<char>>,
)
    ensures
        ({
            let (score, signals) = score_of(name, description, columns);
            let by_columns: int = (if has_intake_column(columns) {
                2int
            } else {
                0
            }) + (if has_species_column(columns) {
                1int
            } else {
                0
            });
            let told: Seq<Seq<char>> = (if has_intake_column(columns) {
                seq!["col:intake-type"@]
            } else {
                Seq::empty()
            }) + (if has_species_column(columns) {
                seq!["col:animal-type"@]
            } else {
                Seq::empty()
            });
            &&& forall|k: int| #[trigger]
                leads(name, description, k) ==> score == known_phrase(k).1 + by_columns && signals
                    == seq![known_phrase(k).2] + told
            &&& (forall|k: int| !#[trigger] leads(name, description, k)) ==> score == by_columns
                && signals == told
        }),
{
    reveal_strlit(" ");
    let said = said_of(name, description);
    assert(" "@ =~= seq![' ']);
    assert(said == text::lowercase(name) + " "@ + text::lowercase(description));
    lemma_column_words(columns);
    let (score, signals) = score_of(name, description, columns);
    let named = name_signal(said);
    let intake = has_intake_column(columns);
    let species = has_species_column(columns);
    let told: Seq<Seq<char>> = (if intake {
        seq!["col:intake-type"@]
    } else {
        Seq::empty()
    }) + (if species {
        seq!["col:animal-type"@]
    } else {
        Seq::empty()
    });
    lemma_leading_phrase(name, description);
    assert forall|k: int| #[trigger] leads(name, description, k) implies named == Some(
        (known_phrase(k).1 as nat, known_phrase(k).2),
    ) && signals == seq![known_phrase(k).2] + told by {
        lemma_phrase_signal(name, description, k);
        assert(signals =~= seq![known_phrase(k).2] + told);
    }
    if forall|k: int| !#[trigger] leads(name, description, k) {
        assert(named is None);
        assert(signals =~= told);
    }
}

proof fn lemma_phrase_signal(name: Seq<char>, description: Seq<char>, k: int)
    requires
        leads(name, description, k),
    ensures
        name_signal(said_of(name, description)) == Some(
            (known_phrase(k).1 as nat, known_phrase(k).2),
        ),
{
    let said = said_of(name, description);
    assert(k > 0 ==> !text::has(said, known_phrase(0).0));
    assert(k > 1 ==> !text::has(said, known_phrase(1).0));
    assert(k > 2 ==> !text::has(said, known_phrase(2).0));
    assert(k > 3 ==> !text::has(said, known_phrase(3).0));
    assert(k > 4 ==> !text::has(said, known_phrase(4).0));
    assert(k > 5 ==> !text::has(said, known_phrase(5).0));
    assert(k > 6 ==> !text::has(said, known_phrase(6).0));
}

proof fn lemma_leading_phrase(name: Seq<char>, description: Seq<char>)
    ensures
        (forall|k: int| !#[trigger] leads(name, description, k)) ==> name_signal(
            said_of(name, description),
        ) is None,
{
    if forall|k: int| !#[trigger] leads(name, description, k) {
        let said = said_of(name, description);
        assert(!leads(name, description, 0));
        assert(!text::has(said, known_phrase(0).0));
        assert(!leads(name, description, 1));
        assert(!text::has(said, known_phrase(1).0));
        assert(!leads(name, description, 2));
        assert(!text::has(said, known_phrase(2).0));
        assert(!leads(name, description, 3));
        assert(!text::has(said, known_phrase(3).0));
        assert(!leads(name, description, 4));
        assert(!text::has(said, known_phrase(4).0));
        assert(!leads(name, description, 5));
        assert(!text::has(said, known_phrase(5).0));
        assert(!leads(name, description, 6));
        assert(!text::has(said, known_phrase(6).0));
        assert(!leads(name, description, 7));
        assert(!text::has(said, known_phrase(7).0));
    }
}

/// A dataset that is known by a phrase scores at least what the phrase is worth,
/// whatever else is said of it and whatever its columns; one that speaks of animal
/// intake scores four or more and says so.
pub proof fn every_phrase_counts(
    name: Seq<char>,
    description: Seq<char>,
    columns: Seq<Seq<char>>,
    k: int,
)
    requires
        0 <= k < 8,
        text::has(said_of(name, description), known_phrase(k).0),
    ensures
        score_of(name, description, columns).0 >= known_phrase(k).1,
        score_of(name, description, columns).0 > 0,
        k == 0 ==> score_of(name, description, columns).1.len() > 0 && score_of(
            name,
            description,
            columns,
        ).1[0] == "name:animal-intake"@,
    decreases k,
{
    phrases_and_columns_make_the_score(name, description, columns);
    if leads(name, description, k) {
        assert(known_phrase(k).1 > 0);
    } else {
        let h = choose|h: int|
            0 <= h < k && text::has(said_of(name, description), (#[trigger] known_phrase(h)).0);
        every_phrase_counts(name, description, columns, h);
    }
}

/// Candidates are ranked by score, the highest first, and by name where scores are
/// the same; the ranking holds the same candidates; and a limit keeps that many
/// from the front.
pub proof fn candidates_rank_by_score_then_name(rows: Seq<Candidate>, limit: Option<usize>)
    ensures
        ({
            let all = rank::ranking(rows);
            let kept = capped(all, limit);
            &&& all.to_multiset() == rows.to_multiset()
            &&& forall|i: int, j: int|
                0 <= i < j < all.len() ==> {
                    let a = #[trigger] all[i];
                    let b = #[trigger] all[j];
                    a.score > b.score || (a.score == b.score && !text::comes_before(
                        b.name@,
                        a.name@,
                    ))
                }
            &&& limit is None ==> kept == all
            &&& limit matches Some(n) ==> kept == all.take(
                if n < all.len() {
                    n as int
                } else {
                    all.len() as int
                },
            )
        }),
{
    rank::ranking_is_sorted(rows);
    let all = rank::ranking(rows);
    assert(all.take(all.len() as int) =~= all);
    assert forall|i: int, j: int| 0 <= i < j < all.len() implies {
        let a = #[trigger] all[i];
        let b = #[trigger] all[j];
        a.score > b.score || (a.score == b.score && !text::comes_before(b.name@, a.name@))
    } by {
        assert(!all[j].above(all[i]));
    }
}

/// Candidates for holes are ranked by the population that the hole misses, the
/// greatest first, then by score, the highest first, then by name.
pub proof fn hole_rows_rank_by_population_then_score_then_name(rows: Seq<HoleCandidateRow>)
    ensures
        ({
            let all = rank::ranking(rows);
            &&& all.to_multiset() == rows.to_multiset()
            &&& forall|i: int, j: int|
                0 <= i < j < all.len() ==> {
                    let a = #[trigger] all[i];
                    let b = #[trigger] all[j];
                    ||| a.estimated_missed_population > b.estimated_missed_population
                    ||| a.estimated_missed_population == b.estimated_missed_population && (
                    a.candidate.score > b.candidate.score || (a.candidate.score
                        == b.candidate.score && !text::comes_before(
                        b.candidate.name@,
                        a.candidate.name@,
                    )))
                }
        }),
{
    rank::ranking_is_sorted(rows);
    let all = rank::ranking(rows);
    assert forall|i: int, j: int| 0 <= i < j < all.len() implies {
        let a = #[trigger] all[i];
        let b = #[trigger] all[j];
        ||| a.estimated_missed_population > b.estimated_missed_population
        ||| a.estimated_missed_population == b.estimated_missed_population && (a.candidate.score
            > b.candidate.score || (a.candidate.score == b.candidate.score && !text::comes_before(
            b.candidate.name@,
            a.candidate.name@,
        )))
    } by {
        assert(!all[j].above(all[i]));
    }
}

/// What tells two entries of a catalog apart: in Socrata's the domain and the
/// identifier together, in OpenDataSoft's the identifier.
pub open spec fn same_dataset(
    family: CandidateFamily,
    a: CatalogEntryView,
    b: CatalogEntryView,
) -> bool {
    match family {
        CandidateFamily::Socrata => a.base + seq![':'] + a.dataset_id == b.base + seq![':']
            + b.dataset_id,
        CandidateFamily::OpenDataSoft => a.dataset_id == b.dataset_id,
    }
}

/// One more entry of a page is one more candidate, behind the others, where it
/// scores something and no earlier entry is of the same dataset; and none
/// otherwise. The candidate is the entry's dataset, with the entry's score.
pub proof fn one_more_entry_is_one_more_candidate(
    entries: Seq<CatalogEntryView>,
    entry: CatalogEntryView,
    family: CandidateFamily,
)
    ensures
        ({
            let before = candidates_of(entries, family, Seq::empty());
            let after = candidates_of(entries.push(entry), family, Seq::empty());
            let (score, signals) = score_of(entry.name, entry.description, entry.columns);
            let known = exists|i: int|
                0 <= i < entries.len() && same_dataset(family, #[trigger] entries[i], entry);
            &&& known || score == 0 ==> after == before
            &&& !known && score > 0 ==> {
                &&& after.len() == before.len() + 1
                &&& after.drop_last() == before
                &&& after.last().family == family
                &&& after.last().domain_or_base_url == entry.base
                &&& after.last().dataset_id == entry.dataset_id
                &&& after.last().name == entry.name
                &&& after.last().score == score
                &&& after.last().matched_signals == signals
                &&& after.last().probe_cmd == probe_command(family, entry.base, entry.dataset_id)
            }
        }),
        candidates_of(Seq::empty(), family, Seq::empty()).len() == 0,
{
    reveal_strlit(":");
    assert(":"@ =~= seq![':']);
    assert(entries.push(entry).drop_last() =~= entries);
    lemma_keys_after(entries, family, dataset_key(family, entry.base, entry.dataset_id));
    let before = candidates_of(entries, family, Seq::empty());
    assert(before.push(candidate_of(entry, family)).drop_last() =~= before);
    let key = dataset_key(family, entry.base, entry.dataset_id);
    assert forall|i: int| 0 <= i < entries.len() implies same_dataset(
        family,
        #[trigger] entries[i],
        entry,
    ) == (dataset_key(family, entries[i].base, entries[i].dataset_id) == key) by {}
}

proof fn lemma_keys_after(entries: Seq<CatalogEntryView>, family: CandidateFamily, key: Seq<char>)
    ensures
        keys_after(entries, family, Seq::empty()).contains(key) <==> exists|i: int|
            0 <= i < entries.len() && dataset_key(
                family,
                (#[trigger] entries[i]).base,
                entries[i].dataset_id,
            ) == key,
    decreases entries.len(),
{
    if entries.len() > 0 {
        let front = entries.drop_last();
        let before = keys_after(front, family, Seq::empty());
        let last = dataset_key(family, entries.last().base, entries.last().dataset_id);
        lemma_keys_after(front, family, key);
        assert forall|i: int| 0 <= i < front.len() implies #[trigger] entries[i] == front[i] by {}
        assert(entries[entries.len() - 1] == entries.last());
        if !before.contains(last) {
            let after = before.push(last);
            assert(after[before.len() as int] == last);
            if before.contains(key) {
                let j = choose|j: int| 0 <= j < before.len() && before[j] == key;
                assert(after[j] == key);
            }
            if after.contains(key) && key != last {
                let j = choose|j: int| 0 <= j < after.len() && after[j] == key;
                assert(before[j] == key);
            }
        }
        if exists|i: int|
            0 <= i < entries.len() && dataset_key(
                family,
                (#[trigger] entries[i]).base,
                entries[i].dataset_id,
            ) == key {
            if key != last {
                let i = choose|i: int|
                    0 <= i < entries.len() && dataset_key(
                        family,
                        (#[trigger] entries[i]).base,
                        entries[i].dataset_id,
                    ) == key;
                assert(front[i] == entries[i]);
            }
        }
    }
}

/// The catalogs are searched for four terms, three pages of a hundred results for
/// each, and two for each on behalf of a hole.
pub proof fn catalogs_are_searched_for_four_terms()
    ensures
        SEARCH_TERMS@.len() == 4,
        SEARCH_TERMS@[0]@ == "animal intake"@,
        SEARCH_TERMS@[1]@ == "animal shelter"@,
        SEARCH_TERMS@[2]@ == "stray"@,
        SEARCH_TERMS@[3]@ == "animal services"@,
        CATALOG_PAGE == 100,
        PAGES_PER_TERM == 3,
        PAGES_PER_HOLE == 2,
{
}

/// A page of a catalog is asked for by its term, with pluses or `%20` for spaces,
/// and by where it begins, and is narrowed to a metro where there is one.
pub proof fn catalog_pages_are_asked_for_by_term(
    term: Seq<char>,
    offset: nat,
    metro: Seq<char>,
    word: Seq<char>,
    i: int,
)
    requires
        !word.contains(' '),
    ensures
        exists|o: Seq<char>, t: Seq<char>|
            {
                &&& #[trigger] query::is_count(o)
                &&& query::count_of(o) == offset
                &&& #[trigger] plus_for_space(term, t)
                &&& socrata_catalog_url(term, offset, None)
                    == "https://api.us.socrata.com/api/catalog/v1?q="@ + t
                    + "&only=dataset&limit=100&offset="@ + o
                &&& ods_catalog_url(term, offset, None)
                    == "https://data.opendatasoft.com/api/explore/v2.1/catalog/datasets?q="@
                    + percent_spaces(term) + "&limit=100&offset="@ + o
            },
        exists|m: Seq<char>| #[trigger]
            plus_for_space(metro, m) && socrata_catalog_url(term, offset, Some(metro))
                == socrata_catalog_url(term, offset, None) + "&search_context="@ + m,
        ods_catalog_url(term, offset, Some(metro)) == ods_catalog_url(term, offset, None)
            + "&where=metas.default.keyword+like+%22"@ + percent_spaces(metro) + "%22"@,
        percent_spaces(word) == word,
        percent_spaces(term.push(' ') + word) == percent_spaces(term) + "%20"@ + word,
{
    query::decimals_read_back(offset);
    let o = text::decimal(offset);
    let t = text::replaced_all(term, ' ', '+');
    let m = text::replaced_all(metro, ' ', '+');
    assert(query::is_count(o) && plus_for_space(term, t));
    assert(plus_for_space(metro, m));
    text::only_part(word, ' ');
    text::next_part(term, word, ' ');
    text::split_has_a_part(term, ' ');
    let parts = text::split_on(term, ' ');
    assert(parts.push(word).drop_last() =~= parts);
}

/// Whether a text is another with a plus for each space.
pub open spec fn plus_for_space(s: Seq<char>, t: Seq<char>) -> bool {
    t.len() == s.len() && forall|i: int|
        0 <= i < s.len() ==> #[trigger] t[i] == (if s[i] == ' ' {
            '+'
        } else {
            s[i]
        })
}

/// A portal is reached at its own address, by `https` where it names no scheme, and
/// at the central catalog where none is named.
pub proof fn portals_are_reached_by_https(domain: Seq<char>)
    ensures
        portal_url(None) == "https://data.opendatasoft.com"@,
        domain.len() == 0 ==> portal_url(Some(domain)) == "https://data.opendatasoft.com"@,
        domain.len() > 0 && "http"@.is_prefix_of(domain) ==> portal_url(Some(domain)) == domain,
        domain.len() > 0 && !"http"@.is_prefix_of(domain) ==> portal_url(Some(domain))
            == "https://"@ + domain,
{
}

/// A hole is searched for by its label up to the first comma, and called by the
/// whole label; without a label both are its place, north or south and east or
/// west.
pub proof fn holes_are_searched_by_label_or_place(
    city: Seq<char>,
    rest: Seq<char>,
    lat: DegreesView,
    lon: DegreesView,
)
    requires
        !city.contains(','),
    ensures
        hole_term(Some(city), lat, lon) == text::trimmed(city),
        hole_term(Some(city.push(',') + rest), lat, lon) == text::trimmed(city),
        hole_name(Some(city.push(',') + rest), lat, lon) == city.push(',') + rest,
        hole_term(None, lat, lon) == lat.tenths + (if lat.negative {
            "S"@
        } else {
            "N"@
        }) + " "@ + lon.tenths + (if lon.negative {
            "W"@
        } else {
            "E"@
        }),
        hole_name(None, lat, lon) == lat.hundredths + (if lat.negative {
            "S"@
        } else {
            "N"@
        }) + ","@ + lon.hundredths + (if lon.negative {
            "W"@
        } else {
            "E"@
        }),
{
    text::only_part(city, ',');
    lemma_first_part(city, rest);
}

proof fn lemma_first_part(city: Seq<char>, rest: Seq<char>)
    requires
        !city.contains(','),
    ensures
        text::split_on(city.push(',') + rest, ',')[0] == city,
        text::split_on(city.push(',') + rest, ',').len() >= 2,
    decreases rest.len(),
{
    let s = city.push(',') + rest;
    if rest.len() == 0 {
        assert(s =~= city.push(','));
        assert(s.drop_last() =~= city);
        text::only_part(city, ',');
    } else {
        lemma_first_part(city, rest.drop_last());
        assert(s.drop_last() =~= city.push(',') + rest.drop_last());
    }
}

/// Options that were understood are taken in before the ones behind them are read.
proof fn lemma_options_go_on(
    args: Seq<Seq<char>>,
    more: Seq<Seq<char>>,
    i: int,
    given: DiscoverArgsView,
)
    requires
        0 <= i <= args.len(),
        discover_options(args, i, given) is Ok,
    ensures
        discover_options(args + more, i, given) == discover_options(
            args + more,
            args.len() as int,
            discover_options(args, i, given)->Ok_0,
        ),
    decreases args.len() - i,
{
    lemma_option_words();
    let all = args + more;
    if i < args.len() {
        let arg = args[i];
        let value = args[i + 1];
        assert(all[i] == arg);
        if i + 1 < args.len() {
            assert(all[i + 1] == value);
        }
        if arg == "--json"@ {
            lemma_options_go_on(
                args,
                more,
                i + 1,
                DiscoverArgsView { json_output: true, ..given },
            );
        } else if arg == "--families"@ {
            lemma_options_go_on(
                args,
                more,
                i + 2,
                DiscoverArgsView { families: family_list(value), ..given },
            );
        } else if arg == "--metro"@ {
            lemma_options_go_on(
                args,
                more,
                i + 2,
                DiscoverArgsView { metro: Some(value), ..given },
            );
        } else if arg == "--limit"@ {
            let n = text::parsed_up_to(value, usize::MAX as nat)->0;
            lemma_options_go_on(
                args,
                more,
                i + 2,
                DiscoverArgsView { limit: Some(n as usize), ..given },
            );
        } else if arg == "--from-holes"@ {
            lemma_options_go_on(
                args,
                more,
                i + 2,
                DiscoverArgsView { from_holes: Some(value), ..given },
            );
        } else if arg == "--top"@ {
            let n = text::parsed_up_to(value, usize::MAX as nat)->0;
            lemma_options_go_on(
                args,
                more,
                i + 2,
                DiscoverArgsView { top_n: Some(n as usize), ..given },
            );
        } else {
            lemma_options_go_on(
                args,
                more,
                i + 2,
                DiscoverArgsView { format: Some(text::lowercase(value)), ..given },
            );
        }
    }
}

/// Each option adds what it says to what the options before it say and leaves the
/// rest as it is; without options both families are searched, without a filter or
/// a cap, for a table.
pub proof fn options_say_one_thing_each(
    args: Seq<Seq<char>>,
    value: Seq<char>,
    number: Seq<char>,
)
    requires
        discover_options(args, 0, default_args()) is Ok,
        query::is_count(number),
        query::count_of(number) <= usize::MAX,
    ensures
        ({
            let given = discover_options(args, 0, default_args())->Ok_0;
            let n = query::count_of(number) as usize;
            let with = |more: Seq<Seq<char>>| discover_options(args + more, 0, default_args());
            &&& with(seq!["--json"@]) == Ok::<DiscoverArgsView, DiscoverUsageView>(
                DiscoverArgsView { json_output: true, ..given },
            )
            &&& with(seq!["--metro"@, value]) == Ok::<DiscoverArgsView, DiscoverUsageView>(
                DiscoverArgsView { metro: Some(value), ..given },
            )
            &&& with(seq!["--limit"@, number]) == Ok::<DiscoverArgsView, DiscoverUsageView>(
                DiscoverArgsView { limit: Some(n), ..given },
            )
            &&& with(seq!["--top"@, number]) == Ok::<DiscoverArgsView, DiscoverUsageView>(
                DiscoverArgsView { top_n: Some(n), ..given },
            )
            &&& with(seq!["--from-holes"@, value]) == Ok::<DiscoverArgsView, DiscoverUsageView>(
                DiscoverArgsView { from_holes: Some(value), ..given },
            )
            &&& with(seq!["--families"@, value]) == Ok::<DiscoverArgsView, DiscoverUsageView>(
                DiscoverArgsView {
                    families: text::split_on(value, ',').map_values(
                        |p: Seq<char>| text::lowercase(text::trimmed(p)),
                    ),
                    ..given
                },
            )
            &&& with(seq!["--format"@, "json"@]) == Ok::<DiscoverArgsView, DiscoverUsageView>(
                DiscoverArgsView { format: Some("json"@), ..given },
            )
            &&& with(seq!["--format"@, "table"@]) == Ok::<DiscoverArgsView, DiscoverUsageView>(
                DiscoverArgsView { format: Some("table"@), ..given },
            )
            &&& with(seq!["--help"@]) == Err::<DiscoverArgsView, DiscoverUsageView>(
                DiscoverUsageView::Help,
            )
            &&& with(seq!["-h"@]) == Err::<DiscoverArgsView, DiscoverUsageView>(
                DiscoverUsageView::Help,
            )
        }),
        discover_options(Seq::empty(), 0, default_args()) == Ok::<
            DiscoverArgsView,
            DiscoverUsageView,
        >(default_args()),
        default_args().families == seq!["socrata"@, "opendatasoft"@],
        default_args().metro is None && default_args().limit is None,
        !default_args().json_output && default_args().from_holes is None,
        default_args().top_n is None && default_args().format is None,
{
    let given = discover_options(args, 0, default_args())->Ok_0;
    lemma_option_words();
    query::digits_parse(number);
    lemma_one_option(args, seq!["--json"@]);
    lemma_one_option(args, seq!["--metro"@, value]);
    lemma_one_option(args, seq!["--limit"@, number]);
    lemma_one_option(args, seq!["--top"@, number]);
    lemma_one_option(args, seq!["--from-holes"@, value]);
    lemma_one_option(args, seq!["--families"@, value]);
    lemma_one_option(args, seq!["--format"@, "json"@]);
    lemma_one_option(args, seq!["--format"@, "table"@]);
    lemma_one_option(args, seq!["--help"@]);
    lemma_one_option(args, seq!["-h"@]);
    reveal_strlit("json");
    reveal_strlit("table");
    assert(text::lowercase("json"@) =~= "json"@);
    assert(text::lowercase("table"@) =~= "table"@);
    reveal_with_fuel(discover_options, 2);
}

proof fn lemma_one_option(args: Seq<Seq<char>>, more: Seq<Seq<char>>)
    requires
        discover_options(args, 0, default_args()) is Ok,
        1 <= more.len() <= 2,
    ensures
        ({
            let all = args + more;
            let n = args.len() as int;
            &&& discover_options(all, 0, default_args()) == discover_options(
                all,
                n,
                discover_options(args, 0, default_args())->Ok_0,
            )
            &&& all.len() == n + more.len()
            &&& all[n] == more[0]
            &&& more.len() == 2 ==> all[n + 1] == more[1]
        }),
{
    lemma_options_go_on(args, more, 0, default_args());
}

proof fn lemma_option_words()
    ensures
        "--json"@ != "--families"@ && "--json"@ != "--metro"@ && "--json"@ != "--limit"@,
        "--metro"@ != "--families"@ && "--limit"@ != "--families"@ && "--limit"@ != "--metro"@,
        "--top"@ != "--families"@ && "--top"@ != "--metro"@ && "--top"@ != "--limit"@ && "--top"@
            != "--json"@ && "--top"@ != "--from-holes"@,
        "--from-holes"@ != "--families"@ && "--from-holes"@ != "--metro"@ && "--from-holes"@
            != "--limit"@ && "--from-holes"@ != "--json"@,
        "--format"@ != "--families"@ && "--format"@ != "--metro"@ && "--format"@ != "--limit"@
            && "--format"@ != "--json"@ && "--format"@ != "--from-holes"@ && "--format"@ != "--top"@,
        "--help"@ != "--families"@ && "--help"@ != "--metro"@ && "--help"@ != "--limit"@ && "--help"@
            != "--json"@ && "--help"@ != "--from-holes"@ && "--help"@ != "--top"@ && "--help"@
            != "--format"@,
        "-h"@ != "--families"@ && "-h"@ != "--metro"@ && "-h"@ != "--limit"@ && "-h"@ != "--json"@
            && "-h"@ != "--from-holes"@ && "-h"@ != "--top"@ && "-h"@ != "--format"@,
        "json"@ != "table"@,
{
    reveal_strlit("--json");
    reveal_strlit("--families");
    reveal_strlit("--metro");
    reveal_strlit("--limit");
    reveal_strlit("--top");
    reveal_strlit("--from-holes");
    reveal_strlit("--format");
    reveal_strlit("--help");
    reveal_strlit("-h");
    reveal_strlit("json");
    reveal_strlit("table");
    assert("--json"@[2] == 'j' && "--families"@[2] == 'f' && "--metro"@[2] == 'm' && "--limit"@[2]
        == 'l' && "--top"@[2] == 't' && "--from-holes"@[2] == 'f' && "--format"@[2] == 'f'
        && "--help"@[2] == 'h');
    assert("--families"@[3] == 'a' && "--from-holes"@[3] == 'r' && "--format"@[3] == 'o');
    assert("-h"@.len() == 2);
    assert("json"@[0] == 'j' && "table"@[0] == 't');
}

/// The families that can be searched go by their names; ArcGIS has no catalog to
/// search, and any other name is not known.
pub proof fn families_go_by_their_names(name: Seq<char>)
    ensures
        family_choice(name) == FamilyChoice::Crawl(CandidateFamily::Socrata) <==> name
            == "socrata"@,
        family_choice(name) == FamilyChoice::Crawl(CandidateFamily::OpenDataSoft) <==> name
            == "opendatasoft"@,
        family_choice(name) == FamilyChoice::ArcGis <==> name == "arcgis"@,
        skipped_note(name, true) is None <==> name == "socrata"@ || name == "opendatasoft"@,
        skipped_note(name, false) is None <==> name == "socrata"@ || name == "opendatasoft"@,
{
    reveal_strlit("socrata");
    reveal_strlit("opendatasoft");
    reveal_strlit("arcgis");
    assert("socrata"@[0] == 's' && "opendatasoft"@[0] == 'o' && "arcgis"@[0] == 'a');
}

/// A search succeeds with or without candidates: with some they are told as a
/// document or in the table, and without any it is said that there are none.
pub proof fn reports_tell_rows_or_their_absence(remark: Seq<char>, table: Seq<Seq<char>>)
    ensures
        rows_report(true, remark, true, table) == rows_report(true, remark, false, table),
        rows_report(true, remark, false, table).code == 0,
        rows_report(true, remark, false, table).stdout.len() == 0,
        rows_report(true, remark, false, table).stderr == seq![remark],
        !rows_report(true, remark, true, table).as_json,
        rows_report(false, remark, true, table).code == 0,
        rows_report(false, remark, true, table).as_json,
        rows_report(false, remark, true, table).stdout.len() == 0,
        rows_report(false, remark, true, table).stderr.len() == 0,
        rows_report(false, remark, false, table).code == 0,
        rows_report(false, remark, false, table).stdout == table,
        rows_report(false, remark, false, table).stderr.len() == 0,
        !rows_report(false, remark, false, table).as_json,
{
}

/// Each candidate takes two lines of the table, behind those of the ones that rank
/// above it: its rank, family, portal, dataset, score and signals, and the command
/// that probes it.
pub proof fn candidates_take_two_lines(candidates: Seq<CandidateView>, c: CandidateView)
    ensures
        ({
            let before = candidate_table(candidates);
            let after = candidate_table(candidates.push(c));
            &&& after.len() == before.len() + 2
            &&& after.take(before.len() as int) == before
            &&& after[before.len() as int] == table_line(
                seq![
                    (text::decimal(candidates.len() + 1), 4nat),
                    (c.family.name(), 14nat),
                    (cut(c.domain_or_base_url, 35), 35nat),
                    (cut(c.dataset_id, 22), 22nat),
                    (text::decimal(c.score), 6nat),
                    (text::joined(c.matched_signals, ", "@), 0nat),
                ],
            )
            &&& after[before.len() as int + 1] == "       probe: "@ + c.probe_cmd
        }),
{
    assert(candidates.push(c).drop_last() =~= candidates);
    let before = candidate_table(candidates);
    assert(candidate_table(candidates.push(c)).take(before.len() as int) =~= before);
}

/// Each candidate for a hole takes two lines of the table, behind those of the ones
/// that rank above it: its rank, region, missed population, family, portal and
/// score, and the command that probes it.
pub proof fn hole_rows_take_two_lines(rows: Seq<HoleRowView>, row: HoleRowView)
    ensures
        ({
            let before = hole_table(rows);
            let after = hole_table(rows.push(row));
            &&& after.len() == before.len() + 2
            &&& after.take(before.len() as int) == before
            &&& after[before.len() as int] == table_line(
                seq![
                    (text::decimal(rows.len() + 1), 4nat),
                    (cut(row.hole_region, 28), 28nat),
                    (text::decimal(row.estimated_missed_population), 12nat),
                    (row.candidate.family.name(), 14nat),
                    (cut(row.candidate.domain_or_base_url, 35), 35nat),
                    (text::decimal(row.candidate.score), 6nat),
                ],
            )
            &&& after[before.len() as int + 1] == "       probe: "@ + row.candidate.probe_cmd
        }),
{
    assert(rows.push(row).drop_last() =~= rows);
    let before = hole_table(rows);
    assert(hole_table(rows.push(row)).take(before.len() as int) =~= before);
}

/// What a crawl came to is told with the number of candidates and the family, or
/// with the family and the error; a region's error is told with the region.
pub proof fn crawls_are_told_by_family(n: nat, region: Seq<char>, e: ConnectorErrorView)
    ensures
        exists|count: Seq<char>|
            {
                &&& #[trigger] query::is_count(count)
                &&& query::count_of(count) == n
                &&& crawled_note(CandidateFamily::Socrata, Ok(n)) == "discover: "@ + count
                    + " Socrata candidates (pre-dedup)"@
                &&& crawled_note(CandidateFamily::OpenDataSoft, Ok(n)) == "discover: "@ + count
                    + " ODS candidates (pre-dedup)"@
            },
        crawled_note(CandidateFamily::Socrata, Err(e)) == "discover: Socrata catalog error: "@
            + e.message(),
        crawled_note(CandidateFamily::OpenDataSoft, Err(e))
            == "discover: OpenDataSoft catalog error: "@ + e.message(),
        region_note(CandidateFamily::Socrata, region, e)
            == "discover --from-holes: Socrata error for region "@ + text::quoted(region) + ": "@
            + e.message(),
        region_note(CandidateFamily::OpenDataSoft, region, e)
            == "discover --from-holes: ODS error for region "@ + text::quoted(region) + ": "@
            + e.message(),
{
    query::decimals_read_back(n);
    assert(query::is_count(text::decimal(n)));
}

} // verus!
