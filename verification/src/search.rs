//! The runs of the `discover` command: which catalog is crawled next and for
//! what, and what is made of the outcome.

use vstd::prelude::*;

use crate::discover;
use crate::discover::{
    Candidate, CandidateFamily, CandidateView, CoverageHole, DiscoverArgs, FamilyChoice,
    HoleCandidateRow, HoleRowView, PAGES_PER_HOLE, PAGES_PER_TERM,
};
use crate::error::ConnectorError;
use crate::rank;

verus! {

/// What a run asks of its caller.
#[derive(Debug, Clone, PartialEq, Eq)]
pub enum SearchStep {
    /// Tell the user why a family is left out.
    Note(String),
    /// Crawl a catalog.
    Crawl {
        /// Which catalog.
        family: CandidateFamily,
        /// The metro to narrow the crawl to.
        metro: Option<String>,
        /// How many pages to read of each term.
        pages: u64,
        /// What to tell the user first.
        announcement: Option<String>,
    },
}

/// The model of a [`SearchStep`].
pub enum SearchStepView {
    /// Tell the user why a family is left out.
    Note(Seq<char>),
    /// Crawl a catalog.
    Crawl {
        /// Which catalog.
        family: CandidateFamily,
        /// The metro to narrow the crawl to.
        metro: Option<Seq<char>>,
        /// How many pages to read of each term.
        pages: nat,
        /// What to tell the user first.
        announcement: Option<Seq<char>>,
    },
}

impl DeepView for SearchStep {
    type V = SearchStepView;

    open spec fn deep_view(&self) -> SearchStepView {
        match self {
            SearchStep::Note(line) => SearchStepView::Note(line@),
            SearchStep::Crawl { family, metro, pages, announcement } => SearchStepView::Crawl {
                family: *family,
                metro: metro.deep_view(),
                pages: *pages as nat,
                announcement: announcement.deep_view(),
            },
        }
    }
}

/// What the user is told before a catalog is crawled.
pub open spec fn announcement(family: CandidateFamily) -> Seq<char> {
    match family {
        CandidateFamily::Socrata =>
            "discover: querying Socrata federated catalog\u{2026}"@,
        CandidateFamily::OpenDataSoft => "discover: querying OpenDataSoft catalog\u{2026}"@,
    }
}

/// What a family's name leads to: its catalog is crawled, or the user is told
/// why not. On behalf of a hole fewer pages are read, and nothing is announced.
pub open spec fn step_for(name: Seq<char>, metro: Option<Seq<char>>, holes: bool) -> SearchStepView {
    match discover::family_choice(name) {
        FamilyChoice::Crawl(family) => if holes {
            SearchStepView::Crawl {
                family,
                metro,
                pages: PAGES_PER_HOLE as nat,
                announcement: None,
            }
        } else {
            SearchStepView::Crawl {
                family,
                metro,
                pages: PAGES_PER_TERM as nat,
                announcement: Some(announcement(family)),
            }
        },
        _ => SearchStepView::Note(discover::skipped_note(name, holes)->0),
    }
}

fn choose_step(name: &str, metro: Option<String>, holes: bool) -> (res: SearchStep)
    ensures
        res.deep_view() == step_for(name@, metro.deep_view(), holes),
{
    match discover::choose_family(name) {
        FamilyChoice::Crawl(family) => if holes {
            SearchStep::Crawl { family, metro, pages: PAGES_PER_HOLE, announcement: None }
        } else {
            let announcement = match family {
                CandidateFamily::Socrata =>
                    "discover: querying Socrata federated catalog\u{2026}".to_owned(),
                CandidateFamily::OpenDataSoft =>
                    "discover: querying OpenDataSoft catalog\u{2026}".to_owned(),
            };
            SearchStep::Crawl {
                family,
                metro,
                pages: PAGES_PER_TERM,
                announcement: Some(announcement),
            }
        },
        _ => match discover::skipped_family_note(name, holes) {
            Some(note) => SearchStep::Note(note),
            None => {
                assert(false);
                SearchStep::Note(String::new())
            },
        },
    }
}

// ---------------------------------------------------------------------------
// Families
// ---------------------------------------------------------------------------

/// A search of the catalogs of several families.
#[derive(Debug)]
pub struct Search {
    /// The families, by name.
    pub families: Vec<String>,
    /// The metro to narrow the search to.
    pub metro: Option<String>,
    /// The place of the family that comes next; past the end when all have.
    pub next: usize,
    /// The candidates so far.
    pub candidates: Vec<Candidate>,
}

/// How many candidates a crawl found, or why it failed.
pub open spec fn counted(outcome: Result<Vec<Candidate>, ConnectorError>) -> Result<
    nat,
    crate::error::ConnectorErrorView,
> {
    match outcome {
        Ok(found) => Ok(found@.len()),
        Err(e) => Err(e.deep_view()),
    }
}

/// What a crawl adds to the candidates.
pub open spec fn found_by(outcome: Result<Vec<Candidate>, ConnectorError>) -> Seq<Candidate> {
    match outcome {
        Ok(found) => found@,
        Err(_) => Seq::empty(),
    }
}

impl Search {
    /// Whether every family had its turn.
    pub open spec fn is_done(&self) -> bool {
        self.next >= self.families@.len()
    }

    /// Begins a search.
    pub fn start(args: &DiscoverArgs) -> (res: Search)
        ensures
            res.families.deep_view() == args.families.deep_view(),
            res.metro.deep_view() == args.metro.deep_view(),
            res.next == 0,
            res.candidates@.len() == 0,
    {
        let families = args.families.clone();
        assert(families.deep_view() =~= args.families.deep_view());
        let metro = match &args.metro {
            Some(m) => Some(m.clone()),
            None => None,
        };
        Search { families, metro, next: 0, candidates: Vec::new() }
    }

    /// Whether every family had its turn.
    pub fn done(&self) -> (res: bool)
        ensures
            res == self.is_done(),
    {
        self.next >= self.families.len()
    }

    /// What the next family leads to.
    pub fn step(&self) -> (res: SearchStep)
        requires
            !self.is_done(),
        ensures
            res.deep_view() == step_for(
                self.families@[self.next as int]@,
                self.metro.deep_view(),
                false,
            ),
    {
        let metro = match &self.metro {
            Some(m) => Some(m.clone()),
            None => None,
        };
        choose_step(&self.families[self.next], metro, false)
    }

    /// Goes on to the next family without a crawl.
    pub fn skip(&mut self)
        requires
            !old(self).is_done(),
        ensures
            final(self).next == old(self).next + 1,
            final(self).families == old(self).families,
            final(self).metro == old(self).metro,
            final(self).candidates == old(self).candidates,
    {
        assert(self.next < self.families.len());
        self.next = self.next + 1;
    }

    /// Takes in what a crawl came to, says what to tell the user of it, and goes
    /// on to the next family. A catalog that could not be read adds nothing, and
    /// does not end the search.
    pub fn absorb(
        &mut self,
        family: CandidateFamily,
        outcome: Result<Vec<Candidate>, ConnectorError>,
    ) -> (res: String)
        requires
            !old(self).is_done(),
        ensures
            res@ == discover::crawled_note(family, counted(outcome)),
            final(self).next == old(self).next + 1,
            final(self).families == old(self).families,
            final(self).metro == old(self).metro,
            final(self).candidates@ == old(self).candidates@ + found_by(outcome),
    {
        assert(self.next < self.families.len());
        self.next = self.next + 1;
        match outcome {
            Ok(found) => {
                let note = discover::note_crawled(family, &Ok(found.len()));
                let mut found = found;
                self.candidates.append(&mut found);
                note
            },
            Err(e) => {
                assert(old(self).candidates@ + Seq::<Candidate>::empty() =~= old(
                    self,
                ).candidates@);
                discover::note_crawled(family, &Err(e))
            },
        }
    }

    /// The candidates of all families, ranked; the first `limit` of them.
    pub fn finish(self, limit: Option<usize>) -> (res: Vec<Candidate>)
        ensures
            res@ == discover::capped(rank::ranking(self.candidates@), limit),
    {
        discover::rank_candidates(self.candidates, limit)
    }
}

// ---------------------------------------------------------------------------
// Holes
// ---------------------------------------------------------------------------

/// The rows that pair a hole with candidates.
pub open spec fn rows_for(hole: CoverageHole, candidates: Seq<CandidateView>) -> Seq<HoleRowView> {
    candidates.map_values(
        |c: CandidateView|
            HoleRowView {
                hole_region: discover::hole_name(
                    hole.label.deep_view(),
                    hole.lat.deep_view(),
                    hole.lon.deep_view(),
                ),
                estimated_missed_population: hole.estimated_missed_population as nat,
                candidate: c,
            },
    )
}

/// The metro that a hole is searched for by.
pub open spec fn metro_of(hole: CoverageHole) -> Seq<char> {
    discover::hole_term(hole.label.deep_view(), hole.lat.deep_view(), hole.lon.deep_view())
}

/// A search of the catalogs for each of several coverage holes.
#[derive(Debug)]
pub struct HoleSearch {
    /// The holes.
    pub holes: Vec<CoverageHole>,
    /// The families, by name.
    pub families: Vec<String>,
    /// The place of the hole that comes next; past the end when all have.
    pub hole: usize,
    /// The place of the family that comes next for that hole.
    pub family: usize,
    /// The rows so far.
    pub rows: Vec<HoleCandidateRow>,
}

impl HoleSearch {
    /// Whether the places are in range.
    pub open spec fn wf(&self) -> bool {
        &&& self.hole <= self.holes@.len()
        &&& self.hole < self.holes@.len() ==> self.family < self.families@.len()
        &&& self.hole == self.holes@.len() ==> self.family == 0
    }

    /// Whether every family had its turn for every hole.
    pub open spec fn is_done(&self) -> bool {
        self.hole >= self.holes@.len()
    }

    /// How many pairs of a hole and a family have had their turn.
    pub open spec fn place(&self) -> int {
        self.hole * self.families@.len() + self.family
    }

    /// Begins a search.
    pub fn start(holes: Vec<CoverageHole>, args: &DiscoverArgs) -> (res: HoleSearch)
        ensures
            res.wf(),
            res.holes == holes,
            res.families.deep_view() == args.families.deep_view(),
            args.families@.len() > 0 ==> res.place() == 0,
            res.is_done() == (holes@.len() == 0 || args.families@.len() == 0),
            res.rows@.len() == 0,
    {
        let families = args.families.clone();
        assert(families.deep_view() =~= args.families.deep_view());
        assert(families.deep_view().len() == args.families.deep_view().len());
        let hole: usize = if families.len() == 0 {
            holes.len()
        } else {
            0
        };
        HoleSearch { holes, families, hole, family: 0, rows: Vec::new() }
    }

    /// Whether every family had its turn for every hole.
    pub fn done(&self) -> (res: bool)
        ensures
            res == self.is_done(),
    {
        self.hole >= self.holes.len()
    }

    /// What the next hole and family lead to.
    pub fn step(&self) -> (res: SearchStep)
        requires
            self.wf(),
            !self.is_done(),
        ensures
            res.deep_view() == step_for(
                self.families@[self.family as int]@,
                Some(metro_of(self.holes@[self.hole as int])),
                true,
            ),
    {
        let terms = self.holes[self.hole].query_terms();
        assert(terms.deep_view().len() == 1);
        assert(terms.deep_view()[0] == terms@[0]@);
        choose_step(&self.families[self.family], Some(terms[0].clone()), true)
    }

    /// Goes on to the next pair without a crawl.
    pub fn skip(&mut self)
        requires
            old(self).wf(),
            !old(self).is_done(),
        ensures
            final(self).wf(),
            final(self).place() == old(self).place() + 1,
            final(self).holes == old(self).holes,
            final(self).families == old(self).families,
            final(self).rows == old(self).rows,
    {
        let ghost n = self.families@.len() as int;
        let ghost h = self.hole as int;
        assert(self.hole < self.holes.len());
        assert(self.family < self.families.len());
        if self.family + 1 < self.families.len() {
            self.family = self.family + 1;
        } else {
            self.hole = self.hole + 1;
            self.family = 0;
            assert((h + 1) * n == h * n + n) by (nonlinear_arith);
        }
    }

    /// Takes in what a crawl came to, and goes on to the next pair. A catalog
    /// that could not be read adds nothing and does not end the search, but the
    /// user is told.
    pub fn absorb(
        &mut self,
        family: CandidateFamily,
        outcome: Result<Vec<Candidate>, ConnectorError>,
    ) -> (res: Option<String>)
        requires
            old(self).wf(),
            !old(self).is_done(),
        ensures
            final(self).wf(),
            final(self).place() == old(self).place() + 1,
            final(self).holes == old(self).holes,
            final(self).families == old(self).families,
            match outcome {
                Ok(found) => {
                    &&& res is None
                    &&& final(self).rows.deep_view() == old(self).rows.deep_view() + rows_for(
                        old(self).holes@[old(self).hole as int],
                        found.deep_view(),
                    )
                },
                Err(e) => {
                    &&& res.deep_view() == Some(
                        discover::region_note(
                            family,
                            discover::hole_name(
                                old(self).holes@[old(self).hole as int].label.deep_view(),
                                old(self).holes@[old(self).hole as int].lat.deep_view(),
                                old(self).holes@[old(self).hole as int].lon.deep_view(),
                            ),
                            e.deep_view(),
                        ),
                    )
                    &&& final(self).rows == old(self).rows
                },
            },
    {
        match outcome {
            Ok(found) => {
                let ghost views = found.deep_view();
                let ghost before = self.rows.deep_view();
                let mut more = self.holes[self.hole].rows(found);
                assert(more.deep_view() =~= rows_for(self.holes@[self.hole as int], views));
                let ghost added = more.deep_view();
                self.rows.append(&mut more);
                assert(self.rows.deep_view() =~= before + added);
                self.skip();
                None
            },
            Err(e) => {
                let region = self.holes[self.hole].region_name();
                self.skip();
                Some(discover::note_region_error(family, &region, &e))
            },
        }
    }

    /// The rows of all holes, ranked; the first `top_n` of them.
    pub fn finish(self, top_n: Option<usize>) -> (res: Vec<HoleCandidateRow>)
        ensures
            res@ == discover::capped(rank::ranking(self.rows@), top_n),
    {
        discover::rank_hole_rows(self.rows, top_n)
    }
}

// ---------------------------------------------------------------------------
// Laws
// ---------------------------------------------------------------------------

/// The pairs of a hole and a family have their turns one after the other, hole
/// by hole: after as many turns as the holes before it and the families before
/// it make up, a pair comes next; and after all of them the search is done.
pub proof fn pairs_come_up_in_order(search: HoleSearch, hole: int, family: int)
    requires
        search.wf(),
        0 <= hole < search.holes@.len(),
        0 <= family < search.families@.len(),
    ensures
        search.place() == hole * search.families@.len() + family ==> search.hole == hole
            && search.family == family,
        search.place() == search.holes@.len() * search.families@.len() <==> search.is_done(),
{
    let n = search.families@.len() as int;
    let h = search.hole as int;
    let all = search.holes@.len() as int;
    if h < hole {
        assert(h * n + n <= hole * n) by (nonlinear_arith)
            requires
                h + 1 <= hole,
                n >= 0,
        ;
    }
    if hole < h {
        assert(hole * n + n <= h * n) by (nonlinear_arith)
            requires
                hole + 1 <= h,
                n >= 0,
        ;
    }
    if h < all {
        assert(h * n + n <= all * n) by (nonlinear_arith)
            requires
                h + 1 <= all,
                n >= 0,
        ;
    }
}

/// The catalogs of the two families that have one are crawled, three pages for each
/// term and announced, or two pages unannounced on behalf of a hole, whose metro
/// narrows the search; for any other name there is a note instead.
pub proof fn families_with_a_catalog_are_crawled(name: Seq<char>, metro: Option<Seq<char>>)
    ensures
        ({
            let step = step_for(name, metro, false);
            let on_behalf = step_for(name, metro, true);
            &&& name == "socrata"@ ==> step == SearchStepView::Crawl {
                family: CandidateFamily::Socrata,
                metro,
                pages: 3,
                announcement: Some("discover: querying Socrata federated catalog\u{2026}"@),
            } && on_behalf == SearchStepView::Crawl {
                family: CandidateFamily::Socrata,
                metro,
                pages: 2,
                announcement: None,
            }
            &&& name == "opendatasoft"@ ==> step == SearchStepView::Crawl {
                family: CandidateFamily::OpenDataSoft,
                metro,
                pages: 3,
                announcement: Some("discover: querying OpenDataSoft catalog\u{2026}"@),
            } && on_behalf == SearchStepView::Crawl {
                family: CandidateFamily::OpenDataSoft,
                metro,
                pages: 2,
                announcement: None,
            }
            &&& name != "socrata"@ && name != "opendatasoft"@ ==> step is Note && on_behalf is Note
        }),
{
    reveal_strlit("socrata");
    reveal_strlit("opendatasoft");
    assert("socrata"@[0] == 's' && "opendatasoft"@[0] == 'o');
}

/// What is found on behalf of a hole is told row by row, in the order in which it
/// was found, each with the hole's region and the population that it misses.
pub proof fn rows_pair_holes_with_candidates(
    hole: CoverageHole,
    candidates: Seq<CandidateView>,
    i: int,
)
    requires
        0 <= i < candidates.len(),
    ensures
        rows_for(hole, candidates).len() == candidates.len(),
        rows_for(hole, candidates)[i].candidate == candidates[i],
        rows_for(hole, candidates)[i].estimated_missed_population
            == hole.estimated_missed_population,
        hole.label matches Some(label) ==> rows_for(hole, candidates)[i].hole_region == label@,
{
}

} // verus!
