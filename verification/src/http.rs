//! Polite HTTP: what a client of other people's servers may send, and when.
//!
//! Requests carry an identifying agent, obey robots.txt (kept for an hour per
//! host), leave a pause between requests to a host, and back off when the
//! server is busy. Instants are nanoseconds of a clock that never runs
//! backwards.

use robots_txt::matcher::SimpleMatcher;
use robots_txt::Robots;
use url::Url;
use vstd::prelude::*;

use crate::error::{ConnectorError, ConnectorErrorView};
use crate::outcome;
use crate::query;
use crate::table::Table;
use crate::text;
use crate::web;

verus! {

/// The User-Agent string sent with every request.
///
/// Identifies the project and contact URL per politeness requirements.
pub const HOMEWARD_USER_AGENT: &'static str =
    "homeward-connectors/0.1 (+https://github.com/j0yen/homeward; shelter-pet aggregation)";

/// How long to keep robots.txt per host, in nanoseconds: one hour.
pub const ROBOTS_TTL: u128 = 3_600_000_000_000;

/// Maximum number of retries when a server is busy or fails.
pub const MAX_RETRIES: u32 = 4;

/// The first pause of the exponential backoff, in nanoseconds: half a second.
pub const BACKOFF_BASE: u128 = 500_000_000;

/// The latest instant of the clock that is counted with.
pub const CLOCK_END: u128 = 0x1_0000_0000_0000_0000_0000_0000;

/// The most characters of a body that an error keeps.
pub const BODY_LIMIT: usize = 256;

// ---------------------------------------------------------------------------
// Status codes
// ---------------------------------------------------------------------------

/// Whether a status code says that the request succeeded.
pub open spec fn is_success(status: u16) -> bool {
    200 <= status <= 299
}

/// What a reply's status code asks of a client that sends each request once.
#[derive(Debug, Clone, Copy, PartialEq, Eq, Structural)]
pub enum StatusClass {
    /// The body holds what was asked for.
    Success,
    /// Nothing has changed since the last time.
    NotModified,
    /// The request failed.
    Failure,
}

/// What a status code asks of a client that sends each request once.
pub open spec fn status_class(status: u16) -> StatusClass {
    if status == 304 {
        StatusClass::NotModified
    } else if is_success(status) {
        StatusClass::Success
    } else {
        StatusClass::Failure
    }
}

/// What a status code asks of a client that sends each request once.
pub fn classify_status(status: u16) -> (res: StatusClass)
    ensures
        res == status_class(status),
{
    if status == 304 {
        StatusClass::NotModified
    } else if 200 <= status && status <= 299 {
        StatusClass::Success
    } else {
        StatusClass::Failure
    }
}

/// The error for a reply of an unexpected status, with the start of its body.
pub fn unexpected_status(status: u16, body: &str) -> (res: ConnectorError)
    ensures
        res.deep_view() == (ConnectorErrorView::UnexpectedStatus {
            status,
            body: text::first_chars(body@, BODY_LIMIT as nat),
        }),
{
    ConnectorError::UnexpectedStatus { status, body: text::prefix(body, BODY_LIMIT) }
}

/// The text of a reply that must be a success, or the error: the status with the
/// start of what could be read of the body, or why the body could not be read.
pub open spec fn text_of_reply(status: u16, body: Result<Seq<char>, Seq<char>>) -> Result<
    Seq<char>,
    ConnectorErrorView,
> {
    if is_success(status) {
        match body {
            Ok(text) => Ok(text),
            Err(e) => Err(ConnectorErrorView::Http(e)),
        }
    } else {
        let said = match body {
            Ok(text) => text,
            Err(_) => Seq::empty(),
        };
        Err(
            ConnectorErrorView::UnexpectedStatus {
                status,
                body: text::first_chars(said, BODY_LIMIT as nat),
            },
        )
    }
}

/// The text of a reply that must be a success.
pub fn read_reply(status: u16, body: Result<String, String>) -> (res: Result<
    String,
    ConnectorError,
>)
    ensures
        outcome::of(res) == text_of_reply(status, outcome::of(body)),
{
    if 200 <= status && status <= 299 {
        return match body {
            Ok(text) => Ok(text),
            Err(e) => Err(ConnectorError::Http(e)),
        };
    }
    let said = match body {
        Ok(text) => text,
        Err(_) => String::new(),
    };
    assert(body is Err ==> said@ =~= Seq::empty());
    Err(unexpected_status(status, &said))
}

// ---------------------------------------------------------------------------
// Retrying
// ---------------------------------------------------------------------------

/// What to do with a reply.
#[derive(Debug, Clone, PartialEq, Eq)]
pub enum GetStep {
    /// Hand the reply to the caller.
    Accept,
    /// Wait this many nanoseconds and send the request again.
    Retry {
        /// How long to wait.
        wait: u128,
    },
    /// Give up: the host keeps saying that it is busy.
    RateLimited,
    /// Give up: the reply is an error of which the body tells more.
    Unexpected,
}

/// The pause before the retry that follows attempt number `attempt`: half a
/// second, doubled each time.
pub open spec fn backoff(attempt: nat) -> nat
    decreases attempt,
{
    if attempt == 0 {
        BACKOFF_BASE as nat
    } else {
        2 * backoff((attempt - 1) as nat)
    }
}

/// The pause that a busy server asks for in whole seconds, or else the backoff.
pub open spec fn busy_pause(attempt: nat, retry_after: Option<Seq<char>>) -> nat {
    let asked = match retry_after {
        Some(s) => text::parsed_up_to(s, u64::MAX as nat),
        None => None,
    };
    match asked {
        Some(secs) => secs * 1_000_000_000,
        None => backoff(attempt),
    }
}

/// What to do with a reply of this status to attempt number `attempt`.
pub open spec fn get_step(status: u16, attempt: nat, retry_after: Option<Seq<char>>) -> GetStep {
    if is_success(status) || status == 304 {
        GetStep::Accept
    } else if status == 429 || status == 503 {
        if attempt >= MAX_RETRIES {
            GetStep::RateLimited
        } else {
            GetStep::Retry { wait: busy_pause(attempt, retry_after) as u128 }
        }
    } else if 500 <= status <= 599 {
        if attempt >= MAX_RETRIES {
            GetStep::Unexpected
        } else {
            GetStep::Retry { wait: backoff(attempt) as u128 }
        }
    } else {
        GetStep::Unexpected
    }
}

fn backoff_nanos(attempt: u32) -> (res: u128)
    requires
        attempt < MAX_RETRIES,
    ensures
        res == backoff(attempt as nat),
{
    proof {
        reveal_with_fuel(backoff, 5);
    }
    if attempt == 0 {
        BACKOFF_BASE
    } else if attempt == 1 {
        BACKOFF_BASE * 2
    } else if attempt == 2 {
        BACKOFF_BASE * 4
    } else {
        BACKOFF_BASE * 8
    }
}

/// Decides what to do with a reply of this status to attempt number `attempt`.
pub fn judge_reply(status: u16, attempt: u32, retry_after: Option<&str>) -> (res: GetStep)
    ensures
        res == get_step(status, attempt as nat, retry_after.deep_view()),
{
    if (200 <= status && status <= 299) || status == 304 {
        return GetStep::Accept;
    }
    if status == 429 || status == 503 {
        if attempt >= MAX_RETRIES {
            return GetStep::RateLimited;
        }
        let asked = match retry_after {
            Some(s) => text::parse_up_to(s, u64::MAX),
            None => None,
        };
        let wait: u128 = match asked {
            Some(secs) => secs as u128 * 1_000_000_000,
            None => backoff_nanos(attempt),
        };
        return GetStep::Retry { wait };
    }
    if 500 <= status && status <= 599 {
        if attempt >= MAX_RETRIES {
            return GetStep::Unexpected;
        }
        return GetStep::Retry { wait: backoff_nanos(attempt) };
    }
    GetStep::Unexpected
}

// ---------------------------------------------------------------------------
// Politeness
// ---------------------------------------------------------------------------

/// A robots.txt that was fetched.
#[derive(Debug)]
pub struct RobotsEntry {
    /// Its text.
    pub text: String,
    /// When it was fetched.
    pub cached_at: u128,
}

/// What is known of the hosts that are being talked to.
#[derive(Debug)]
pub struct Politeness {
    robots: Table<RobotsEntry>,
    next_allowed: Table<u128>,
    min_interval: u128,
}

/// The model of a [`Politeness`].
pub struct PolitenessView {
    /// The robots.txt of each host, with when it was fetched.
    pub robots: Map<Seq<char>, RobotsEntry>,
    /// When each host may be sent the next request.
    pub next_allowed: Map<Seq<char>, u128>,
    /// The pause between requests to a host.
    pub min_interval: nat,
}

impl View for Politeness {
    type V = PolitenessView;

    closed spec fn view(&self) -> PolitenessView {
        PolitenessView {
            robots: self.robots@,
            next_allowed: self.next_allowed@,
            min_interval: self.min_interval as nat,
        }
    }
}

impl PolitenessView {
    /// The text of a host's robots.txt that is not yet an hour old.
    pub open spec fn known_robots(self, host: Seq<char>, now: int) -> Option<Seq<char>> {
        if self.robots.dom().contains(host) && now - self.robots[host].cached_at < ROBOTS_TTL {
            Some(self.robots[host].text@)
        } else {
            None
        }
    }

    /// Without a host's robots.txt that is an hour old or more.
    pub open spec fn without_stale(self, host: Seq<char>, now: int) -> PolitenessView {
        if self.known_robots(host, now) is None {
            PolitenessView { robots: self.robots.remove(host), ..self }
        } else {
            self
        }
    }

    /// How long to wait before the next request to a host.
    pub open spec fn wait(self, host: Seq<char>, now: int) -> int {
        if self.next_allowed.dom().contains(host) && self.next_allowed[host] > now {
            self.next_allowed[host] - now
        } else {
            0
        }
    }

    /// With the next request to a host put off until `delay` after `now`.
    pub open spec fn put_off(self, host: Seq<char>, now: int, delay: int) -> PolitenessView {
        PolitenessView {
            next_allowed: self.next_allowed.insert(host, (now + delay) as u128),
            ..self
        }
    }

    /// After a reply of this status to attempt number `attempt`: a request that
    /// was served is followed by the usual pause, and a busy host is left alone
    /// for as long as the retry waits.
    pub open spec fn after_reply(
        self,
        host: Seq<char>,
        status: u16,
        attempt: nat,
        retry_after: Option<Seq<char>>,
        now: int,
    ) -> PolitenessView {
        match get_step(status, attempt, retry_after) {
            GetStep::Accept => self.put_off(host, now, self.min_interval as int),
            GetStep::Retry { wait } => if status == 429 || status == 503 {
                self.put_off(host, now, wait as int)
            } else {
                self
            },
            _ => self,
        }
    }
}

/// What the `robots_txt` crate answers for a robots.txt, an agent and a path.
pub uninterp spec fn robots_allow(robots: Seq<char>, agent: Seq<char>, path: Seq<char>) -> bool;

/// `Robots::from_str_lossy`, `Robots::choose_section` and
/// `SimpleMatcher::check_path`: whether the robots.txt lets the agent read the
/// path; a function of the three texts alone. The matcher cuts agent and path
/// at byte positions, so both must be ASCII.
#[verifier::external_body]
fn check_path(robots: &str, agent: &str, path: &str) -> (res: bool)
    requires
        text::all_ascii(agent@),
        text::all_ascii(path@),
    ensures
        res == robots_allow(robots@, agent@, path@),
{
    let robots = Robots::from_str_lossy(robots);
    SimpleMatcher::new(&robots.choose_section(agent).rules).check_path(path)
}

/// The host of a URL, empty where it has none.
pub open spec fn host_or_empty(url: Seq<char>) -> Seq<char> {
    match web::host_of(url) {
        Some(h) => h,
        None => Seq::empty(),
    }
}

/// Where the robots.txt of a URL's host is.
pub open spec fn robots_url(url: Seq<char>) -> Seq<char> {
    web::scheme_of(url) + "://"@ + web::authority_of(url) + "/robots.txt"@
}

/// Whether a robots.txt lets us read a URL.
pub open spec fn robots_verdict(robots: Seq<char>, url: Seq<char>) -> Result<
    (),
    ConnectorErrorView,
> {
    if robots_allow(robots, HOMEWARD_USER_AGENT@, web::path_of(url)) {
        Ok(())
    } else {
        Err(
            ConnectorErrorView::RobotsDisallowed {
                path: web::path_of(url),
                user_agent: HOMEWARD_USER_AGENT@,
            },
        )
    }
}

/// The host of a URL, empty where it has none.
pub fn host(url: &Url) -> (res: String)
    ensures
        res@ == host_or_empty(web::url_text(*url)),
{
    match url.host_str() {
        Some(h) => h.to_owned(),
        None => String::new(),
    }
}

/// Checks a URL against the robots.txt of its host.
pub fn judge_robots(robots: &str, url: &Url) -> (res: Result<(), ConnectorError>)
    ensures
        outcome::of(res) == robots_verdict(robots@, web::url_text(*url)),
{
    proof {
        lemma_agent_is_ascii();
    }
    let path = url.path();
    if check_path(robots, HOMEWARD_USER_AGENT, path) {
        Ok(())
    } else {
        Err(
            ConnectorError::RobotsDisallowed {
                path: path.to_owned(),
                user_agent: HOMEWARD_USER_AGENT.to_owned(),
            },
        )
    }
}

proof fn lemma_agent_is_ascii()
    ensures
        text::all_ascii(HOMEWARD_USER_AGENT@),
{
    reveal_strlit(
        "homeward-connectors/0.1 (+https://github.com/j0yen/homeward; shelter-pet aggregation)",
    );
}

/// The first half of a robots.txt check.
#[derive(Debug)]
pub enum RobotsStep {
    /// The robots.txt at this address has to be fetched.
    Fetch(String),
    /// A robots.txt was at hand, and this is what it says.
    Decided(Result<(), ConnectorError>),
}

impl Politeness {
    /// Whether the tables are in order.
    pub closed spec fn wf(&self) -> bool {
        self.robots.wf() && self.next_allowed.wf()
    }

    /// Nothing is known of any host yet; requests to one host are to be
    /// `min_interval` nanoseconds apart.
    pub fn new(min_interval: u128) -> (res: Self)
        ensures
            res.wf(),
            res@.robots == Map::<Seq<char>, RobotsEntry>::empty(),
            res@.next_allowed == Map::<Seq<char>, u128>::empty(),
            res@.min_interval == min_interval,
    {
        Politeness { robots: Table::new(), next_allowed: Table::new(), min_interval }
    }

    /// Begins a robots.txt check: a robots.txt that is not yet an hour old
    /// decides at once; an older one is dropped, and has to be fetched.
    pub fn begin_robots(&mut self, url: &Url, now: u128) -> (res: RobotsStep)
        requires
            old(self).wf(),
        ensures
            final(self).wf(),
            final(self)@ == old(self)@.without_stale(
                host_or_empty(web::url_text(*url)),
                now as int,
            ),
            match old(self)@.known_robots(host_or_empty(web::url_text(*url)), now as int) {
                Some(robots) => res matches RobotsStep::Decided(verdict) && outcome::of(verdict)
                    == robots_verdict(robots, web::url_text(*url)),
                None => res matches RobotsStep::Fetch(address) && address@ == robots_url(
                    web::url_text(*url),
                ),
            },
    {
        let host = host(url);
        let known = match self.robots.get(host.as_str()) {
            Some(entry) => if now < entry.cached_at || now - entry.cached_at < ROBOTS_TTL {
                Some(entry.text.clone())
            } else {
                None
            },
            None => None,
        };
        match known {
            Some(robots) => RobotsStep::Decided(judge_robots(robots.as_str(), url)),
            None => {
                self.robots.remove(host.as_str());
                RobotsStep::Fetch(
                    url.scheme().to_owned().concat("://").concat(url.authority()).concat(
                        "/robots.txt",
                    ),
                )
            },
        }
    }

    /// Ends a robots.txt check with what was fetched: a text is kept and
    /// decides; where there was none to be had, everything is allowed.
    pub fn end_robots(&mut self, url: &Url, fetched: Option<String>, now: u128) -> (res: Result<
        (),
        ConnectorError,
    >)
        requires
            old(self).wf(),
        ensures
            final(self).wf(),
            match fetched {
                Some(robots) => {
                    &&& outcome::of(res) == robots_verdict(robots@, web::url_text(*url))
                    &&& final(self)@ == (PolitenessView {
                        robots: old(self)@.robots.insert(
                            host_or_empty(web::url_text(*url)),
                            RobotsEntry { text: robots, cached_at: now },
                        ),
                        ..old(self)@
                    })
                },
                None => res is Ok && final(self)@ == old(self)@,
            },
    {
        match fetched {
            Some(robots) => {
                let verdict = judge_robots(robots.as_str(), url);
                self.robots.insert(host(url), RobotsEntry { text: robots, cached_at: now });
                verdict
            },
            None => Ok(()),
        }
    }

    /// How many nanoseconds to wait before the next request to a host.
    pub fn wait_rate_limit(&self, host: &str, now: u128) -> (res: u128)
        requires
            self.wf(),
        ensures
            res == self@.wait(host@, now as int),
    {
        match self.next_allowed.get(host) {
            Some(next) => if *next > now {
                *next - now
            } else {
                0
            },
            None => 0,
        }
    }

    fn update_rate_state(&mut self, host: &str, delay: u128, now: u128)
        requires
            old(self).wf(),
            now + delay <= u128::MAX,
        ensures
            final(self).wf(),
            final(self)@ == old(self)@.put_off(host@, now as int, delay as int),
    {
        self.next_allowed.insert(host.to_owned(), now + delay);
    }

    /// Decides what to do with a reply, and takes note of when the host may be
    /// sent the next request.
    pub fn take_reply(
        &mut self,
        host: &str,
        status: u16,
        attempt: u32,
        retry_after: Option<&str>,
        now: u128,
    ) -> (res: GetStep)
        requires
            old(self).wf(),
            now <= CLOCK_END,
            old(self)@.min_interval <= CLOCK_END,
        ensures
            final(self).wf(),
            res == get_step(status, attempt as nat, retry_after.deep_view()),
            final(self)@ == old(self)@.after_reply(
                host@,
                status,
                attempt as nat,
                retry_after.deep_view(),
                now as int,
            ),
    {
        let step = judge_reply(status, attempt, retry_after);
        proof {
            retries_are_bounded(status, attempt as nat, retry_after.deep_view());
        }
        match &step {
            GetStep::Accept => {
                let delay = self.min_interval;
                self.update_rate_state(host, delay, now);
            },
            GetStep::Retry { wait } => {
                if status == 429 || status == 503 {
                    self.update_rate_state(host, *wait, now);
                }
            },
            _ => {},
        }
        step
    }
}

// ---------------------------------------------------------------------------
// Laws
// ---------------------------------------------------------------------------

/// A request is sent again only after fewer than four retries, and a retry
/// waits at least half a second unless the server asked for a pause itself; so
/// a request is sent at most five times.
pub proof fn retries_are_bounded(status: u16, attempt: nat, retry_after: Option<Seq<char>>)
    ensures
        get_step(status, attempt, retry_after) is Retry ==> attempt < MAX_RETRIES,
        get_step(status, attempt, retry_after) matches GetStep::Retry { wait } ==> wait
            <= u64::MAX as int * 1_000_000_000,
        retry_after is None ==> (get_step(status, attempt, retry_after) matches GetStep::Retry {
            wait,
        } ==> BACKOFF_BASE <= wait <= 8 * BACKOFF_BASE),
        attempt >= MAX_RETRIES ==> !(get_step(status, attempt, retry_after) is Retry),
{
    reveal_with_fuel(backoff, 5);
}

/// Once a reply is accepted, the next request to that host waits for the whole
/// pause, and those to other hosts wait as long as before.
pub proof fn accepted_requests_are_spaced(
    state: PolitenessView,
    host: Seq<char>,
    other: Seq<char>,
    status: u16,
    attempt: nat,
    retry_after: Option<Seq<char>>,
    now: int,
)
    requires
        get_step(status, attempt, retry_after) is Accept,
        0 <= now,
        now + state.min_interval <= u128::MAX,
        other != host,
    ensures
        state.after_reply(host, status, attempt, retry_after, now).wait(host, now)
            == state.min_interval,
        state.after_reply(host, status, attempt, retry_after, now).wait(other, now) == state.wait(
            other,
            now,
        ),
{
}

/// A robots.txt that was fetched decides until it is an hour old, and no
/// longer.
pub proof fn robots_are_kept_for_an_hour(
    state: PolitenessView,
    host: Seq<char>,
    entry: RobotsEntry,
    now: int,
)
    ensures
        ({
            let kept = PolitenessView { robots: state.robots.insert(host, entry), ..state };
            kept.known_robots(host, now) == (if now - entry.cached_at < ROBOTS_TTL {
                Some(entry.text@)
            } else {
                None
            })
        }),
{
}

/// A reply is accepted where it is a success or says that nothing has changed. A
/// busy host, 429 or 503, is asked again after the seconds that it names, or else
/// after half a second, doubled with each try; any other server error after half a
/// second, doubled with each try; and both four times at most, after which a busy
/// host exhausts the limit and any other reply is unexpected, as every other reply
/// is at once.
pub proof fn replies_are_judged_by_status(
    status: u16,
    attempt: nat,
    retry_after: Option<Seq<char>>,
)
    ensures
        ({
            let step = get_step(status, attempt, retry_after);
            let busy = status == 429 || status == 503;
            let server = 500 <= status <= 599;
            let accepted = 200 <= status <= 299 || status == 304;
            &&& accepted <==> step == GetStep::Accept
            &&& busy && attempt >= 4 <==> step == GetStep::RateLimited
            &&& !accepted && !busy && (!server || attempt >= 4) <==> step == GetStep::Unexpected
            &&& (busy || server) && attempt < 4 <==> step is Retry
        }),
{
}

/// How long a retry waits: the whole seconds that a busy host names in digits, or
/// else half a second, one, two and four seconds for the first, second, third and
/// fourth retry.
pub proof fn retries_wait_longer_each_time(status: u16, seconds: Seq<char>)
    requires
        500 <= status <= 599 || status == 429,
        query::is_count(seconds),
        query::count_of(seconds) <= u64::MAX,
    ensures
        get_step(status, 0, None) == (GetStep::Retry { wait: 500_000_000 }),
        get_step(status, 1, None) == (GetStep::Retry { wait: 1_000_000_000 }),
        get_step(status, 2, None) == (GetStep::Retry { wait: 2_000_000_000 }),
        get_step(status, 3, None) == (GetStep::Retry { wait: 4_000_000_000 }),
        forall|attempt: nat|
            attempt < 4 ==> #[trigger] get_step(status, attempt, Some(seconds)) == (if status == 429
                || status == 503 {
                GetStep::Retry { wait: (query::count_of(seconds) * 1_000_000_000) as u128 }
            } else {
                get_step(status, attempt, None)
            }),
{
    reveal_with_fuel(backoff, 5);
    query::digits_parse(seconds);
}

/// A busy host is left alone for as long as the retry waits, an accepted request is
/// followed by the usual pause, and any other reply leaves the pauses as they are;
/// no reply changes the pauses of another host or the robots texts.
pub proof fn replies_put_off_their_own_host(
    state: PolitenessView,
    host: Seq<char>,
    other: Seq<char>,
    status: u16,
    attempt: nat,
    retry_after: Option<Seq<char>>,
    now: int,
    at: int,
)
    requires
        0 <= now,
        now + state.min_interval <= u128::MAX,
        get_step(status, attempt, retry_after) matches GetStep::Retry { wait } ==> now + wait
            <= u128::MAX,
        other != host,
    ensures
        ({
            let after = state.after_reply(host, status, attempt, retry_after, now);
            &&& after.wait(other, at) == state.wait(other, at)
            &&& after.robots == state.robots
            &&& after.min_interval == state.min_interval
            &&& 200 <= status <= 299 || status == 304 ==> after.wait(host, at) == (if at < now
                + state.min_interval {
                now + state.min_interval - at
            } else {
                0
            })
            &&& (status == 429 || status == 503) ==> (get_step(
                status,
                attempt,
                retry_after,
            ) matches GetStep::Retry { wait } ==> after.wait(host, at) == (if at < now + wait {
                now + wait - at
            } else {
                0
            }))
            &&& !(200 <= status <= 299) && status != 304 && status != 429 && status != 503
                ==> after.wait(host, at) == state.wait(host, at)
        }),
{
}

/// A robots text is looked for at the root of the URL's own host, and a page that
/// it shuts out is refused by its path and by our name.
pub proof fn robots_are_asked_at_the_root(robots: Seq<char>, url: Seq<char>)
    ensures
        robots_url(url) == web::scheme_of(url) + "://"@ + web::authority_of(url) + "/robots.txt"@,
        robots_allow(robots, HOMEWARD_USER_AGENT@, web::path_of(url)) <==> robots_verdict(
            robots,
            url,
        ) is Ok,
        robots_verdict(robots, url) matches Err(e) ==> e == (ConnectorErrorView::RobotsDisallowed {
            path: web::path_of(url),
            user_agent: HOMEWARD_USER_AGENT@,
        }),
        HOMEWARD_USER_AGENT@
            == "homeward-connectors/0.1 (+https://github.com/j0yen/homeward; shelter-pet aggregation)"@,
        ROBOTS_TTL == 3_600_000_000_000,
        BODY_LIMIT == 256,
{
}

/// A reply that must be a success gives its text where it is one; otherwise the
/// error names its status and the first 256 characters of what it said.
pub proof fn failures_are_told_by_status(
    status: u16,
    body: Seq<char>,
    complaint: Seq<char>,
)
    ensures
        200 <= status <= 299 ==> text_of_reply(status, Ok(body)) == Ok::<
            Seq<char>,
            ConnectorErrorView,
        >(body),
        200 <= status <= 299 ==> text_of_reply(status, Err(complaint)) == Err::<
            Seq<char>,
            ConnectorErrorView,
        >(ConnectorErrorView::Http(complaint)),
        !(200 <= status <= 299) ==> text_of_reply(status, Ok(body)) == Err::<
            Seq<char>,
            ConnectorErrorView,
        >(
            ConnectorErrorView::UnexpectedStatus {
                status,
                body: if body.len() <= 256 {
                    body
                } else {
                    body.take(256)
                },
            },
        ),
        status_class(status) == (if status == 304 {
            StatusClass::NotModified
        } else if 200 <= status <= 299 {
            StatusClass::Success
        } else {
            StatusClass::Failure
        }),
{
}

} // verus!
