//! The `homeward` command line: what an invocation asks for, and which sources
//! it works with.

use vstd::prelude::*;

use crate::catalog::{ArcGisConfig, OpenDataSoftConfig, SourceCatalog};
use crate::connectors::socrata;
use crate::connectors::socrata::SocrataConfig;
use crate::discover;
use crate::query;
use crate::schema::{Cursor, PetRecord};
use crate::text;
use crate::time;
use crate::time::Moment;

verus! {

// ---------------------------------------------------------------------------
// Poll
// ---------------------------------------------------------------------------

/// The flags of `connectors poll`: where the poll begins, and how many records
/// are printed.
pub type PollFlags = (Option<Cursor>, Option<usize>);

/// The model of the flags of `connectors poll`, or the complaint.
pub type PollFlagsView = Result<(Option<Moment>, Option<usize>), Seq<char>>;

/// The model of parsed flags. A cursor is one of an instant.
pub open spec fn flags_or(res: Result<PollFlags, String>) -> PollFlagsView {
    match res {
        Ok((since, limit)) => Ok((Cursor::instant(since), limit)),
        Err(e) => Err(e@),
    }
}

/// Whether a cursor, where there is one, is that of an instant.
pub open spec fn names_an_instant(since: Option<Cursor>) -> bool {
    since is Some ==> since->0 is Timestamp
}

/// The flags with those from place `i` on taken in.
pub open spec fn poll_flags(
    args: Seq<Seq<char>>,
    i: int,
    since: Option<Moment>,
    limit: Option<usize>,
) -> PollFlagsView
    decreases args.len() - i,
{
    if i >= args.len() {
        Ok((since, limit))
    } else if args[i] == "--since"@ {
        if i + 1 >= args.len() {
            Err("--since requires a value"@)
        } else {
            match time::rfc3339_instant(args[i + 1]) {
                Ok(m) => poll_flags(args, i + 2, Some(m), limit),
                Err(e) => Err("invalid --since timestamp: "@ + e),
            }
        }
    } else if args[i] == "--limit"@ {
        if i + 1 >= args.len() {
            Err("--limit requires a value"@)
        } else {
            match text::parsed_up_to(args[i + 1], usize::MAX as nat) {
                Some(n) => poll_flags(args, i + 2, since, Some(n as usize)),
                None => Err("invalid --limit value: "@ + text::number_complaint(args[i + 1])),
            }
        }
    } else {
        Err("unknown argument: "@ + text::quoted(args[i]))
    }
}

/// Parses `--since` and `--limit` from the arguments of `connectors poll`, which
/// begin with `poll` and the name of a connector.
pub fn parse_poll_flags(args: &Vec<String>) -> (res: Result<PollFlags, String>)
    ensures
        flags_or(res) == poll_flags(args.deep_view(), 2, None, None),
        res is Ok ==> names_an_instant(res->Ok_0.0),
{
    let ghost all = args.deep_view();
    let mut since: Option<Cursor> = None;
    let mut limit: Option<usize> = None;
    let mut i: usize = 2;
    while i < args.len()
        invariant
            2 <= i,
            all == args.deep_view(),
            names_an_instant(since),
            poll_flags(all, i as int, Cursor::instant(since), limit) == poll_flags(
                all,
                2,
                None,
                None,
            ),
        decreases args.len() - i,
    {
        proof {
            assert(all[i as int] == args@[i as int]@);
            assert(i + 1 < all.len() ==> all[i + 1] == args@[i + 1]@);
        }
        let arg = args[i].as_str();
        let has_value = i + 1 < args.len();
        if text::same(arg, "--since") {
            if !has_value {
                return Err("--since requires a value".to_owned());
            }
            match time::read_rfc3339(&args[i + 1]) {
                Ok(t) => {
                    since = Some(Cursor::Timestamp(t));
                },
                Err(e) => return Err("invalid --since timestamp: ".to_owned().concat(&e)),
            }
        } else if text::same(arg, "--limit") {
            if !has_value {
                return Err("--limit requires a value".to_owned());
            }
            match text::parse_usize(&args[i + 1]) {
                Ok(n) => {
                    limit = Some(n);
                },
                Err(e) => return Err("invalid --limit value: ".to_owned().concat(&e)),
            }
        } else {
            return Err("unknown argument: ".to_owned().concat(&text::quote(arg)));
        }
        i += 2;
    }
    Ok((since, limit))
}

/// The polled records that are printed: the first `limit`, or all.
pub fn limit_records(records: Vec<PetRecord>, limit: Option<usize>) -> (res: Vec<PetRecord>)
    ensures
        res@ == discover::capped(records@, limit),
{
    discover::cap(records, limit)
}

/// The closing line of a poll.
pub fn polled_line(count: usize, name: &str) -> (res: String)
    ensures
        res@ == "polled "@ + text::decimal(count as nat) + " records from "@ + name@,
{
    "polled ".to_owned().concat(&text::write_decimal(count as u64)).concat(
        " records from ",
    ).concat(name)
}

// ---------------------------------------------------------------------------
// Coverage
// ---------------------------------------------------------------------------

/// The flags of `connectors coverage`.
#[derive(Debug, Clone, PartialEq, Eq)]
pub struct CoverageFlags {
    /// Path to the store, if one is given.
    pub store: Option<String>,
    /// Whether to emit JSON.
    pub json: bool,
    /// Whether to compute geographic coverage.
    pub geo: bool,
}

/// The model of [`CoverageFlags`].
pub struct CoverageFlagsView {
    /// Path to the store.
    pub store: Option<Seq<char>>,
    /// Whether to emit JSON.
    pub json: bool,
    /// Whether to compute geographic coverage.
    pub geo: bool,
}

impl DeepView for CoverageFlags {
    type V = CoverageFlagsView;

    open spec fn deep_view(&self) -> CoverageFlagsView {
        CoverageFlagsView { store: self.store.deep_view(), json: self.json, geo: self.geo }
    }
}

/// The flags of `connectors coverage` with those from place `i` on taken in;
/// `None` where help is asked for; otherwise the lines of the complaint.
pub open spec fn coverage_flags(
    args: Seq<Seq<char>>,
    i: int,
    given: CoverageFlagsView,
) -> Result<Option<CoverageFlagsView>, Seq<Seq<char>>>
    decreases args.len() - i,
{
    if i >= args.len() {
        Ok(Some(given))
    } else if args[i] == "--store"@ {
        if i + 1 >= args.len() {
            Err(seq!["--store requires a path argument"@])
        } else {
            coverage_flags(
                args,
                i + 2,
                CoverageFlagsView { store: Some(args[i + 1]), ..given },
            )
        }
    } else if args[i] == "--json"@ {
        coverage_flags(args, i + 1, CoverageFlagsView { json: true, ..given })
    } else if args[i] == "--geo"@ {
        coverage_flags(args, i + 1, CoverageFlagsView { geo: true, ..given })
    } else if args[i] == "--help"@ || args[i] == "-h"@ {
        Ok(None)
    } else {
        Err(
            seq![
                "unknown coverage argument: "@ + text::quoted(args[i]),
                "Run `homeward connectors coverage --help` for usage."@,
            ],
        )
    }
}

/// The model of parsed flags.
pub open spec fn coverage_flags_or(res: Result<Option<CoverageFlags>, Vec<String>>) -> Result<
    Option<CoverageFlagsView>,
    Seq<Seq<char>>,
> {
    match res {
        Ok(flags) => Ok(flags.deep_view()),
        Err(lines) => Err(lines.deep_view()),
    }
}

/// Parses the arguments of `connectors coverage`, which begin with `coverage`.
pub fn parse_coverage_flags(args: &Vec<String>) -> (res: Result<
    Option<CoverageFlags>,
    Vec<String>,
>)
    ensures
        coverage_flags_or(res) == coverage_flags(
            args.deep_view(),
            1,
            (CoverageFlagsView { store: None, json: false, geo: false }),
        ),
{
    let ghost all = args.deep_view();
    let ghost start = CoverageFlagsView { store: None, json: false, geo: false };
    let mut given = CoverageFlags { store: None, json: false, geo: false };
    let mut i: usize = 1;
    while i < args.len()
        invariant
            1 <= i,
            all == args.deep_view(),
            start == (CoverageFlagsView { store: None, json: false, geo: false }),
            coverage_flags(all, i as int, given.deep_view()) == coverage_flags(all, 1, start),
        decreases args.len() - i,
    {
        proof {
            assert(all[i as int] == args@[i as int]@);
            assert(i + 1 < all.len() ==> all[i + 1] == args@[i + 1]@);
        }
        let arg = args[i].as_str();
        if text::same(arg, "--store") {
            if i + 1 >= args.len() {
                let lines = vec!["--store requires a path argument".to_owned()];
                assert(lines.deep_view() =~= seq!["--store requires a path argument"@]);
                return Err(lines);
            }
            i += 1;
            given = CoverageFlags { store: Some(args[i].clone()), json: given.json, geo: given.geo };
        } else if text::same(arg, "--json") {
            given.json = true;
        } else if text::same(arg, "--geo") {
            given.geo = true;
        } else if text::same(arg, "--help") || text::same(arg, "-h") {
            return Ok(None);
        } else {
            let lines = vec![
                "unknown coverage argument: ".to_owned().concat(&text::quote(arg)),
                "Run `homeward connectors coverage --help` for usage.".to_owned(),
            ];
            assert(lines.deep_view() =~= seq![
                "unknown coverage argument: "@ + text::quoted(arg@),
                "Run `homeward connectors coverage --help` for usage."@,
            ]);
            return Err(lines);
        }
        i += 1;
    }
    Ok(Some(given))
}

/// The help text of `connectors coverage`, line by line.
pub const COVERAGE_HELP: [&'static str; 26] = [
    "homeward connectors coverage \u{2014} catchment report",
    "",
    "USAGE:",
    "  homeward connectors coverage [--store <path>] [--json] [--geo]",
    "",
    "OPTIONS:",
    "  --store <path>   Path to the homeward ingest SQLite store.",
    "                   When omitted, only registry metadata is shown;",
    "                   record counts and last_success are marked 'unknown'.",
    "  --json           Emit structured JSON ({sources: [...], holes: [...]}).",
    "  --geo            Add geographic cell coverage (needs --store).",
    "  --help           Show this help message.",
    "",
    "STATUS VALUES:",
    "  LIVE         Recent success (within RECENT_WINDOW_SECS) and records > 0.",
    "  STALE        Last success older than cadence \u{d7} STALE_MULTIPLIER.",
    "  SILENT       Registered but zero records ever ingested.",
    "  UNREACHABLE  Source never successfully polled (no cursor advancement).",
    "  UNKNOWN      No --store provided; status cannot be determined.",
    "",
    "THRESHOLDS (explicit constants):",
    "  STALE_MULTIPLIER  = 3  (cadence \u{d7} 3 = stale threshold)",
    "  RECENT_WINDOW_SECS= 14400  (4h \u{2014} live window)",
    "",
    "ENVIRONMENT:",
    "  HOMEWARD_SOURCES   Path to sources.toml catalog (overrides built-in sources).",
];

// ---------------------------------------------------------------------------
// Invocations
// ---------------------------------------------------------------------------

/// The usage of the program, line by line.
pub const USAGE: [&'static str; 6] = [
    "Usage: homeward <subcommand>",
    "       homeward connectors poll <name> [--since <ts>] [--limit <n>]",
    "       homeward connectors list",
    "       homeward connectors coverage [--store <path>] [--json] [--geo]",
    "       homeward probe <domain> <dataset_id> [--name <slug>] [--json]",
    "       homeward discover [--families socrata,opendatasoft] [--metro <str>] [--limit N] [--json]",
];

/// What an invocation of the program asks for.
#[derive(Debug, Clone, PartialEq, Eq)]
pub enum Invocation {
    /// Print the usage, and fail.
    Usage,
    /// Print a complaint, and fail.
    Fault(String),
    /// List the registered connectors.
    List,
    /// Poll a connector; the arguments begin with `poll`.
    Poll {
        /// Name of the connector.
        name: String,
        /// The arguments.
        args: Vec<String>,
    },
    /// Report on coverage; the arguments begin with `coverage`.
    Coverage(Vec<String>),
    /// Probe a dataset.
    Probe(Vec<String>),
    /// Discover candidates.
    Discover(Vec<String>),
}

/// The model of an [`Invocation`].
pub enum InvocationView {
    /// Print the usage.
    Usage,
    /// Print a complaint.
    Fault(Seq<char>),
    /// List the connectors.
    List,
    /// Poll a connector.
    Poll {
        /// Name of the connector.
        name: Seq<char>,
        /// The arguments.
        args: Seq<Seq<char>>,
    },
    /// Report on coverage.
    Coverage(Seq<Seq<char>>),
    /// Probe a dataset.
    Probe(Seq<Seq<char>>),
    /// Discover candidates.
    Discover(Seq<Seq<char>>),
}

impl DeepView for Invocation {
    type V = InvocationView;

    open spec fn deep_view(&self) -> InvocationView {
        match self {
            Invocation::Usage => InvocationView::Usage,
            Invocation::Fault(line) => InvocationView::Fault(line@),
            Invocation::List => InvocationView::List,
            Invocation::Poll { name, args } => InvocationView::Poll {
                name: name@,
                args: args.deep_view(),
            },
            Invocation::Coverage(args) => InvocationView::Coverage(args.deep_view()),
            Invocation::Probe(args) => InvocationView::Probe(args.deep_view()),
            Invocation::Discover(args) => InvocationView::Discover(args.deep_view()),
        }
    }
}

/// What an invocation of `connectors` asks for.
pub open spec fn connectors_invocation(args: Seq<Seq<char>>) -> InvocationView {
    if args.len() == 0 {
        InvocationView::Fault("Usage: homeward connectors <poll|list|coverage> ..."@)
    } else if args[0] == "list"@ {
        InvocationView::List
    } else if args[0] == "poll"@ {
        if args.len() < 2 {
            InvocationView::Fault(
                "Usage: homeward connectors poll <name> [--since <ts>] [--limit <n>]"@,
            )
        } else {
            InvocationView::Poll { name: args[1], args }
        }
    } else if args[0] == "coverage"@ {
        InvocationView::Coverage(args)
    } else {
        InvocationView::Fault("unknown connectors subcommand: "@ + text::quoted(args[0]))
    }
}

/// What an invocation asks for; the first argument is the program's own name.
pub open spec fn invocation(args: Seq<Seq<char>>) -> InvocationView {
    if args.len() < 2 {
        InvocationView::Usage
    } else if args[1] == "connectors"@ {
        connectors_invocation(args.skip(2))
    } else if args[1] == "probe"@ {
        InvocationView::Probe(args.skip(2))
    } else if args[1] == "discover"@ {
        InvocationView::Discover(args.skip(2))
    } else {
        InvocationView::Fault("unknown subcommand: "@ + text::quoted(args[1]))
    }
}

/// The arguments behind the subcommand.
fn rest(args: &Vec<String>) -> (res: Vec<String>)
    requires
        args.len() >= 2,
    ensures
        res.deep_view() == args.deep_view().skip(2),
{
    let ghost all = args.deep_view();
    let mut out: Vec<String> = Vec::new();
    let mut i: usize = 2;
    while i < args.len()
        invariant
            2 <= i <= args.len(),
            all == args.deep_view(),
            out.deep_view() =~= all.subrange(2, i as int),
        decreases args.len() - i,
    {
        let ghost before = out.deep_view();
        out.push(args[i].clone());
        assert(out.deep_view() =~= before.push(all[i as int]));
        i += 1;
    }
    assert(out.deep_view() =~= all.skip(2));
    out
}

fn choose_connectors_command(args: Vec<String>) -> (res: Invocation)
    ensures
        res.deep_view() == connectors_invocation(args.deep_view()),
{
    if args.len() == 0 {
        return Invocation::Fault(
            "Usage: homeward connectors <poll|list|coverage> ...".to_owned(),
        );
    }
    assert(args.deep_view()[0] == args@[0]@);
    let command = args[0].as_str();
    if text::same(command, "list") {
        Invocation::List
    } else if text::same(command, "poll") {
        if args.len() < 2 {
            Invocation::Fault(
                "Usage: homeward connectors poll <name> [--since <ts>] [--limit <n>]".to_owned(),
            )
        } else {
            assert(args.deep_view()[1] == args@[1]@);
            let name = args[1].clone();
            Invocation::Poll { name, args }
        }
    } else if text::same(command, "coverage") {
        Invocation::Coverage(args)
    } else {
        Invocation::Fault("unknown connectors subcommand: ".to_owned().concat(&text::quote(command)))
    }
}

/// Chooses what an invocation asks for; the first argument is the program's own
/// name.
pub fn choose_command(args: &Vec<String>) -> (res: Invocation)
    ensures
        res.deep_view() == invocation(args.deep_view()),
{
    if args.len() < 2 {
        return Invocation::Usage;
    }
    assert(args.deep_view()[1] == args@[1]@);
    let command = args[1].as_str();
    if text::same(command, "connectors") {
        choose_connectors_command(rest(args))
    } else if text::same(command, "probe") {
        Invocation::Probe(rest(args))
    } else if text::same(command, "discover") {
        Invocation::Discover(rest(args))
    } else {
        Invocation::Fault("unknown subcommand: ".to_owned().concat(&text::quote(command)))
    }
}

// ---------------------------------------------------------------------------
// Sources
// ---------------------------------------------------------------------------

/// The sources that an invocation works with.
#[derive(Debug, Clone, PartialEq, Eq)]
pub struct SourcePlan {
    /// Socrata sources.
    pub socrata: Vec<SocrataConfig>,
    /// OpenDataSoft sources.
    pub opendatasoft: Vec<OpenDataSoftConfig>,
    /// ArcGIS sources.
    pub arcgis: Vec<ArcGisConfig>,
    /// Why a catalog could not be used.
    pub complaint: Option<String>,
}

/// The built-in Socrata sources.
pub fn built_in_sources() -> (res: Vec<SocrataConfig>)
    ensures
        res.deep_view() == seq![
            socrata::austin_config(),
            socrata::dallas_config(),
            socrata::sonoma_config(),
            socrata::long_beach_config(),
        ],
{
    let res = vec![
        SocrataConfig::austin(),
        SocrataConfig::dallas(),
        SocrataConfig::sonoma(),
        SocrataConfig::long_beach(),
    ];
    assert(res.deep_view() =~= seq![
        socrata::austin_config(),
        socrata::dallas_config(),
        socrata::sonoma_config(),
        socrata::long_beach_config(),
    ]);
    res
}

/// Chooses the sources: those of the catalog at `path`, where one is set; none,
/// with a complaint, where it could not be loaded; the built-in ones where none
/// is set.
pub fn choose_sources(path: &str, catalog: Option<Result<SourceCatalog, String>>) -> (res:
    SourcePlan)
    ensures
        match catalog {
            Some(Ok(c)) => {
                &&& res.socrata == c.socrata
                &&& res.opendatasoft == c.opendatasoft
                &&& res.arcgis == c.arcgis
                &&& res.complaint is None
            },
            Some(Err(e)) => {
                &&& res.socrata@.len() == 0
                &&& res.opendatasoft@.len() == 0
                &&& res.arcgis@.len() == 0
                &&& res.complaint.deep_view() == Some(
                    "error: HOMEWARD_SOURCES="@ + path@ + " could not be loaded: "@ + e@,
                )
            },
            None => {
                &&& res.socrata.deep_view() == seq![
                    socrata::austin_config(),
                    socrata::dallas_config(),
                    socrata::sonoma_config(),
                    socrata::long_beach_config(),
                ]
                &&& res.opendatasoft@.len() == 0
                &&& res.arcgis@.len() == 0
                &&& res.complaint is None
            },
        },
{
    match catalog {
        Some(Ok(c)) => SourcePlan {
            socrata: c.socrata,
            opendatasoft: c.opendatasoft,
            arcgis: c.arcgis,
            complaint: None,
        },
        Some(Err(e)) => SourcePlan {
            socrata: Vec::new(),
            opendatasoft: Vec::new(),
            arcgis: Vec::new(),
            complaint: Some(
                "error: HOMEWARD_SOURCES=".to_owned().concat(path).concat(
                    " could not be loaded: ",
                ).concat(&e),
            ),
        },
        None => SourcePlan {
            socrata: built_in_sources(),
            opendatasoft: Vec::new(),
            arcgis: Vec::new(),
            complaint: None,
        },
    }
}

/// The warning that a connector could not be set up; `kind` is empty or names
/// the family behind a space.
pub fn init_warning(name: &str, kind: &str, reason: &str) -> (res: String)
    ensures
        res@ == "warning: could not init "@ + name@ + kind@ + " connector: "@ + reason@,
{
    "warning: could not init ".to_owned().concat(name).concat(kind).concat(" connector: ").concat(
        reason,
    )
}

// ---------------------------------------------------------------------------
// Laws
// ---------------------------------------------------------------------------

/// Arguments go to the subcommand that stands first, without the program's name and
/// without the subcommand; those of a poll and of a coverage report keep the word
/// that asks for them. Without a subcommand the usage is told.
pub proof fn commands_go_by_their_names(
    program: Seq<char>,
    name: Seq<char>,
    rest: Seq<Seq<char>>,
)
    ensures
        invocation(seq![program, "probe"@] + rest) == InvocationView::Probe(rest),
        invocation(seq![program, "discover"@] + rest) == InvocationView::Discover(rest),
        invocation(seq![program, "connectors"@, "list"@] + rest) == InvocationView::List,
        invocation(seq![program, "connectors"@, "poll"@, name] + rest) == (InvocationView::Poll {
            name,
            args: seq!["poll"@, name] + rest,
        }),
        invocation(seq![program, "connectors"@, "coverage"@] + rest) == InvocationView::Coverage(
            seq!["coverage"@] + rest,
        ),
        invocation(seq![program]) == InvocationView::Usage,
        invocation(Seq::empty()) == InvocationView::Usage,
        invocation(seq![program, "connectors"@]) is Fault,
        invocation(seq![program, "connectors"@, "poll"@]) is Fault,
        name != "probe"@ && name != "discover"@ && name != "connectors"@ ==> invocation(
            seq![program, name] + rest,
        ) is Fault,
        name != "list"@ && name != "poll"@ && name != "coverage"@ ==> invocation(
            seq![program, "connectors"@, name] + rest,
        ) is Fault,
{
    reveal_strlit("probe");
    reveal_strlit("discover");
    reveal_strlit("connectors");
    reveal_strlit("list");
    reveal_strlit("poll");
    reveal_strlit("coverage");
    assert("probe"@[0] == 'p' && "discover"@[0] == 'd' && "connectors"@[0] == 'c');
    assert("list"@[0] == 'l' && "poll"@[0] == 'p' && "coverage"@[0] == 'c');
    let probe = seq![program, "probe"@] + rest;
    assert(probe[1] == "probe"@ && probe.skip(2) =~= rest);
    let found = seq![program, "discover"@] + rest;
    assert(found[1] == "discover"@ && found.skip(2) =~= rest);
    let list = seq![program, "connectors"@, "list"@] + rest;
    assert(list[1] == "connectors"@ && list.skip(2)[0] == "list"@);
    let poll = seq![program, "connectors"@, "poll"@, name] + rest;
    assert(poll[1] == "connectors"@ && poll.skip(2) =~= seq!["poll"@, name] + rest);
    assert(poll.skip(2)[0] == "poll"@ && poll.skip(2)[1] == name);
    let cover = seq![program, "connectors"@, "coverage"@] + rest;
    assert(cover[1] == "connectors"@ && cover.skip(2) =~= seq!["coverage"@] + rest);
    assert(cover.skip(2)[0] == "coverage"@);
    let bare = seq![program, "connectors"@, "poll"@];
    assert(bare.skip(2)[0] == "poll"@);
    let other = seq![program, name] + rest;
    assert(other[1] == name);
    let under = seq![program, "connectors"@, name] + rest;
    assert(under[1] == "connectors"@ && under.skip(2)[0] == name);
}

proof fn lemma_poll_words()
    ensures
        "--since"@ != "--limit"@,
        "--store"@ != "--json"@ && "--store"@ != "--geo"@ && "--json"@ != "--geo"@,
        "--help"@ != "--store"@ && "--help"@ != "--json"@ && "--help"@ != "--geo"@,
        "-h"@ != "--store"@ && "-h"@ != "--json"@ && "-h"@ != "--geo"@,
{
    reveal_strlit("--since");
    reveal_strlit("--limit");
    reveal_strlit("--store");
    reveal_strlit("--json");
    reveal_strlit("--geo");
    reveal_strlit("--help");
    reveal_strlit("-h");
    assert("--since"@[2] == 's' && "--limit"@[2] == 'l');
    assert("--store"@[2] == 's' && "--json"@[2] == 'j' && "--geo"@[2] == 'g' && "--help"@[2]
        == 'h');
    assert("-h"@.len() == 2 && "--json"@.len() == 6 && "--geo"@.len() == 5 && "--store"@.len()
        == 7);
}

proof fn lemma_poll_flags_go_on(
    args: Seq<Seq<char>>,
    more: Seq<Seq<char>>,
    i: int,
    since: Option<Moment>,
    limit: Option<usize>,
)
    requires
        0 <= i <= args.len(),
        poll_flags(args, i, since, limit) is Ok,
    ensures
        poll_flags(args + more, i, since, limit) == poll_flags(
            args + more,
            args.len() as int,
            poll_flags(args, i, since, limit)->Ok_0.0,
            poll_flags(args, i, since, limit)->Ok_0.1,
        ),
    decreases args.len() - i,
{
    lemma_poll_words();
    let all = args + more;
    if i < args.len() {
        assert(all[i] == args[i]);
        if i + 1 < args.len() {
            assert(all[i + 1] == args[i + 1]);
        }
        if args[i] == "--since"@ {
            let m = time::rfc3339_instant(args[i + 1])->Ok_0;
            lemma_poll_flags_go_on(args, more, i + 2, Some(m), limit);
        } else {
            let n = text::parsed_up_to(args[i + 1], usize::MAX as nat)->0;
            lemma_poll_flags_go_on(args, more, i + 2, since, Some(n as usize));
        }
    }
}

/// Each flag of a poll adds what it says to what the flags before it say: `--since`
/// the instant where the poll begins, and `--limit` how many records are printed.
/// Without flags there is neither.
pub proof fn poll_flags_say_one_thing_each(
    args: Seq<Seq<char>>,
    instant: Seq<char>,
    number: Seq<char>,
)
    requires
        args.len() >= 2,
        poll_flags(args, 2, None, None) is Ok,
        query::is_count(number),
        query::count_of(number) <= usize::MAX,
    ensures
        ({
            let (since, limit) = poll_flags(args, 2, None, None)->Ok_0;
            &&& poll_flags(args + seq!["--limit"@, number], 2, None, None) == Ok::<
                (Option<Moment>, Option<usize>),
                Seq<char>,
            >((since, Some(query::count_of(number) as usize)))
            &&& time::rfc3339_instant(instant) matches Ok(m) ==> poll_flags(
                args + seq!["--since"@, instant],
                2,
                None,
                None,
            ) == Ok::<(Option<Moment>, Option<usize>), Seq<char>>((Some(m), limit))
            &&& time::rfc3339_instant(instant) matches Err(e) ==> poll_flags(
                args + seq!["--since"@, instant],
                2,
                None,
                None,
            ) == Err::<(Option<Moment>, Option<usize>), Seq<char>>(
                "invalid --since timestamp: "@ + e,
            )
            &&& poll_flags(args + seq!["--since"@], 2, None, None) is Err
            &&& poll_flags(args + seq!["--limit"@], 2, None, None) is Err
        }),
        poll_flags(args.take(2), 2, None, None) == Ok::<
            (Option<Moment>, Option<usize>),
            Seq<char>,
        >((None, None)),
{
    lemma_poll_words();
    query::digits_parse(number);
    lemma_one_poll_flag(args, seq!["--limit"@, number]);
    lemma_one_poll_flag(args, seq!["--since"@, instant]);
    lemma_one_poll_flag(args, seq!["--since"@]);
    lemma_one_poll_flag(args, seq!["--limit"@]);
    reveal_with_fuel(poll_flags, 2);
}

proof fn lemma_one_poll_flag(args: Seq<Seq<char>>, more: Seq<Seq<char>>)
    requires
        args.len() >= 2,
        poll_flags(args, 2, None, None) is Ok,
        1 <= more.len() <= 2,
    ensures
        poll_flags(args + more, 2, None, None) == poll_flags(
            args + more,
            args.len() as int,
            poll_flags(args, 2, None, None)->Ok_0.0,
            poll_flags(args, 2, None, None)->Ok_0.1,
        ),
        (args + more).len() == args.len() + more.len(),
        (args + more)[args.len() as int] == more[0],
        more.len() == 2 ==> (args + more)[args.len() as int + 1] == more[1],
{
    lemma_poll_flags_go_on(args, more, 2, None, None);
}

proof fn lemma_coverage_flags_go_on(
    args: Seq<Seq<char>>,
    more: Seq<Seq<char>>,
    i: int,
    given: CoverageFlagsView,
)
    requires
        0 <= i <= args.len(),
        coverage_flags(args, i, given) is Ok,
        coverage_flags(args, i, given)->Ok_0 is Some,
    ensures
        coverage_flags(args + more, i, given) == coverage_flags(
            args + more,
            args.len() as int,
            coverage_flags(args, i, given)->Ok_0->0,
        ),
    decreases args.len() - i,
{
    lemma_poll_words();
    let all = args + more;
    if i < args.len() {
        assert(all[i] == args[i]);
        if i + 1 < args.len() {
            assert(all[i + 1] == args[i + 1]);
        }
        if args[i] == "--store"@ {
            lemma_coverage_flags_go_on(
                args,
                more,
                i + 2,
                CoverageFlagsView { store: Some(args[i + 1]), ..given },
            );
        } else if args[i] == "--json"@ {
            lemma_coverage_flags_go_on(
                args,
                more,
                i + 1,
                CoverageFlagsView { json: true, ..given },
            );
        } else {
            lemma_coverage_flags_go_on(
                args,
                more,
                i + 1,
                CoverageFlagsView { geo: true, ..given },
            );
        }
    }
}

/// Each flag of a coverage report adds what it says to what the flags before it say:
/// `--store` the path of the store, `--json` a document in place of a table, `--geo`
/// the map of cells; and `--help` asks for help whatever else was said.
pub proof fn coverage_flags_say_one_thing_each(
    args: Seq<Seq<char>>,
    given: CoverageFlagsView,
    flags: CoverageFlagsView,
    path: Seq<char>,
)
    requires
        args.len() >= 1,
        coverage_flags(args, 1, given) == Ok::<Option<CoverageFlagsView>, Seq<Seq<char>>>(
            Some(flags),
        ),
    ensures
        ({
            let with = |more: Seq<Seq<char>>| coverage_flags(args + more, 1, given);
            &&& with(seq!["--store"@, path]) == Ok::<Option<CoverageFlagsView>, Seq<Seq<char>>>(
                Some(CoverageFlagsView { store: Some(path), ..flags }),
            )
            &&& with(seq!["--json"@]) == Ok::<Option<CoverageFlagsView>, Seq<Seq<char>>>(
                Some(CoverageFlagsView { json: true, ..flags }),
            )
            &&& with(seq!["--geo"@]) == Ok::<Option<CoverageFlagsView>, Seq<Seq<char>>>(
                Some(CoverageFlagsView { geo: true, ..flags }),
            )
            &&& with(seq!["--help"@]) == Ok::<Option<CoverageFlagsView>, Seq<Seq<char>>>(None)
            &&& with(seq!["-h"@]) == Ok::<Option<CoverageFlagsView>, Seq<Seq<char>>>(None)
            &&& with(seq!["--store"@]) is Err
        }),
        coverage_flags(args.take(1), 1, given) == Ok::<Option<CoverageFlagsView>, Seq<Seq<char>>>(
            Some(given),
        ),
{
    lemma_poll_words();
    lemma_one_coverage_flag(args, seq!["--store"@, path], given);
    lemma_one_coverage_flag(args, seq!["--json"@], given);
    lemma_one_coverage_flag(args, seq!["--geo"@], given);
    lemma_one_coverage_flag(args, seq!["--help"@], given);
    lemma_one_coverage_flag(args, seq!["-h"@], given);
    lemma_one_coverage_flag(args, seq!["--store"@], given);
    reveal_with_fuel(coverage_flags, 2);
}

proof fn lemma_one_coverage_flag(
    args: Seq<Seq<char>>,
    more: Seq<Seq<char>>,
    given: CoverageFlagsView,
)
    requires
        args.len() >= 1,
        coverage_flags(args, 1, given) is Ok,
        coverage_flags(args, 1, given)->Ok_0 is Some,
        1 <= more.len() <= 2,
    ensures
        coverage_flags(args + more, 1, given) == coverage_flags(
            args + more,
            args.len() as int,
            coverage_flags(args, 1, given)->Ok_0->0,
        ),
        (args + more).len() == args.len() + more.len(),
        (args + more)[args.len() as int] == more[0],
        more.len() == 2 ==> (args + more)[args.len() as int + 1] == more[1],
{
    lemma_coverage_flags_go_on(args, more, 1, given);
}

} // verus!
