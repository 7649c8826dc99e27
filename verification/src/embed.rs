//! Client side of the photo-embedding sidecar: configuration, requests and the
//! judgement of replies.
//!
//! The sidecar exposes `POST /enroll`, `POST /query` and `GET /health`.
//!
//! | Variable           | Default     | Meaning                    |
//! |--------------------|-------------|----------------------------|
//! | `HW_EMBED_HOST`    | `127.0.0.1` | Sidecar host               |
//! | `HW_EMBED_PORT`    | `8741`      | Sidecar port               |
//! | `HW_EMBED_TIMEOUT` | `10`        | Per-request timeout (secs) |

use serde_json::Value;
use std::time::Duration;
use vstd::prelude::*;

use crate::ids;
use crate::json;
use crate::json::Json;
use crate::query;
use crate::span;
use crate::text;

verus! {

// ---------------------------------------------------------------------------
// Configuration
// ---------------------------------------------------------------------------

/// Configuration of the sidecar client.
#[derive(Debug, PartialEq, Eq)]
pub struct EmbedClientConfig {
    /// Base URL of the sidecar (e.g. `http://127.0.0.1:8741`).
    pub base_url: String,
    /// Per-request timeout.
    pub timeout: Duration,
}

impl Clone for EmbedClientConfig {
    fn clone(&self) -> (res: Self)
        ensures
            res == *self,
    {
        EmbedClientConfig { base_url: self.base_url.clone(), timeout: self.timeout }
    }
}

/// The host that is used where none is set.
pub const DEFAULT_HOST: &'static str = "127.0.0.1";

/// The port that is used where none is set.
pub const DEFAULT_PORT: u16 = 8741;

/// The timeout in seconds that is used where none is set.
pub const DEFAULT_TIMEOUT_SECS: u64 = 10;

/// The base URL of a host and a port.
pub open spec fn base_url_of(host: Seq<char>, port: nat) -> Seq<char> {
    "http://"@ + host + ":"@ + text::decimal(port)
}

/// The number that a variable holds, where it is set to one of at most `max`;
/// otherwise the default.
pub open spec fn setting(value: Option<Seq<char>>, max: nat, default: nat) -> nat {
    match value {
        Some(s) => match text::parsed_up_to(s, max) {
            Some(n) => n,
            None => default,
        },
        None => default,
    }
}

fn read_setting(value: &Option<String>, max: u64, default: u64) -> (res: u64)
    requires
        default <= max,
    ensures
        res == setting(value.deep_view(), max as nat, default as nat),
        res <= max,
{
    match value {
        Some(s) => match text::parse_up_to(s, max) {
            Some(n) => n,
            None => default,
        },
        None => default,
    }
}

impl EmbedClientConfig {
    /// Default development configuration pointing at localhost:8741.
    #[must_use]
    pub fn default_local() -> (res: Self)
        ensures
            res.base_url@ == "http://127.0.0.1:8741"@,
            span::nanos_of(res.timeout) == DEFAULT_TIMEOUT_SECS * 1_000_000_000,
    {
        EmbedClientConfig {
            base_url: "http://127.0.0.1:8741".to_owned(),
            timeout: Duration::from_secs(DEFAULT_TIMEOUT_SECS),
        }
    }

    /// The base URL of a host and a port.
    pub fn base_url_for(host: &str, port: u16) -> (res: String)
        ensures
            res@ == base_url_of(host@, port as nat),
    {
        "http://".to_owned().concat(host).concat(":").concat(&text::write_decimal(port as u64))
    }

    /// Configuration from what the variables `HW_EMBED_HOST`, `HW_EMBED_PORT`
    /// and `HW_EMBED_TIMEOUT` are set to. One that is not set, or not to a
    /// number that fits, has its default.
    #[must_use]
    pub fn from_env(host: Option<String>, port: Option<String>, timeout: Option<String>) -> (res:
        Self)
        ensures
            res.base_url@ == base_url_of(
                match host {
                    Some(h) => h@,
                    None => DEFAULT_HOST@,
                },
                setting(port.deep_view(), u16::MAX as nat, DEFAULT_PORT as nat),
            ),
            span::nanos_of(res.timeout) == setting(
                timeout.deep_view(),
                u64::MAX as nat,
                DEFAULT_TIMEOUT_SECS as nat,
            ) * 1_000_000_000,
    {
        let port = read_setting(&port, u16::MAX as u64, DEFAULT_PORT as u64) as u16;
        let secs = read_setting(&timeout, u64::MAX, DEFAULT_TIMEOUT_SECS);
        let base_url = match &host {
            Some(h) => EmbedClientConfig::base_url_for(h, port),
            None => EmbedClientConfig::base_url_for(DEFAULT_HOST, port),
        };
        EmbedClientConfig { base_url, timeout: Duration::from_secs(secs) }
    }

    /// Where photos are enrolled.
    pub fn enroll_url(&self) -> (res: String)
        ensures
            res@ == self.base_url@ + "/enroll"@,
    {
        self.base_url.clone().concat("/enroll")
    }

    /// Where the gallery is queried.
    pub fn query_url(&self) -> (res: String)
        ensures
            res@ == self.base_url@ + "/query"@,
    {
        self.base_url.clone().concat("/query")
    }

    /// Where the sidecar says that it is alive.
    pub fn health_url(&self) -> (res: String)
        ensures
            res@ == self.base_url@ + "/health"@,
    {
        self.base_url.clone().concat("/health")
    }
}

/// Without any variable set, the configuration from the environment is the
/// local one.
pub proof fn unset_means_local()
    ensures
        base_url_of(DEFAULT_HOST@, setting(None, u16::MAX as nat, DEFAULT_PORT as nat))
            == "http://127.0.0.1:8741"@,
        setting(None, u64::MAX as nat, DEFAULT_TIMEOUT_SECS as nat) == DEFAULT_TIMEOUT_SECS,
{
    reveal_strlit("http://");
    reveal_strlit("127.0.0.1");
    reveal_strlit(":");
    reveal_strlit("http://127.0.0.1:8741");
    reveal_with_fuel(text::decimal, 5);
    assert(text::decimal(8741) =~= seq!['8', '7', '4', '1']);
    assert(base_url_of("127.0.0.1"@, 8741) =~= "http://127.0.0.1:8741"@);
}

// ---------------------------------------------------------------------------
// Requests
// ---------------------------------------------------------------------------

/// Request body for `POST /enroll`.
#[derive(Debug, Clone, PartialEq, Eq)]
pub struct EnrollRequest {
    /// Stable pet identifier, as text.
    pub canonical_id: String,
    /// URL of the photo to embed and index.
    pub image_url: String,
    /// Optional species hint (`"dog"` or `"cat"`).
    pub species: Option<String>,
}

/// An object with one more member, where that has a value.
pub open spec fn with_text(
    m: Map<Seq<char>, Json>,
    key: Seq<char>,
    value: Option<Seq<char>>,
) -> Map<Seq<char>, Json> {
    match value {
        Some(s) => m.insert(key, Json::Text(s)),
        None => m,
    }
}

fn add_text(pairs: &mut Vec<(String, Value)>, key: &str, value: &Option<String>)
    ensures
        json::object_of(final(pairs)@) == with_text(
            json::object_of(old(pairs)@),
            key@,
            value.deep_view(),
        ),
{
    if let Some(s) = value {
        let ghost before = pairs@;
        pairs.push((key.to_owned(), json::text(s.clone())));
        assert(pairs@.drop_last() =~= before);
    }
}

impl EnrollRequest {
    /// A request for an identifier and a photo URL.
    #[must_use]
    pub fn new(canonical_id: u128, image_url: &str, species: Option<&str>) -> (res: Self)
        ensures
            res.canonical_id@ == ids::base32(canonical_id as nat, 26),
            res.image_url@ == image_url@,
            res.species.deep_view() == (match species {
                Some(s) => Some(s@),
                None => None,
            }),
    {
        EnrollRequest {
            canonical_id: ids::id_text(canonical_id),
            image_url: image_url.to_owned(),
            species: match species {
                Some(s) => Some(s.to_owned()),
                None => None,
            },
        }
    }

    /// The body of the request. A species that is not given is left out.
    pub fn to_json(&self) -> (res: Value)
        ensures
            json::contents(res) == Json::Object(
                with_text(
                    Map::empty().insert(
                        "canonical_id"@,
                        Json::Text(self.canonical_id@),
                    ).insert("image_url"@, Json::Text(self.image_url@)),
                    "species"@,
                    self.species.deep_view(),
                ),
            ),
    {
        let mut pairs: Vec<(String, Value)> = Vec::new();
        assert(json::object_of(pairs@) =~= Map::empty());
        add_text(&mut pairs, "canonical_id", &Some(self.canonical_id.clone()));
        add_text(&mut pairs, "image_url", &Some(self.image_url.clone()));
        add_text(&mut pairs, "species", &self.species);
        json::object(pairs)
    }
}

/// Response body from `POST /enroll`.
#[derive(Debug, Clone, PartialEq, Eq)]
pub struct EnrollResponse {
    /// The canonical id echoed back.
    pub canonical_id: String,
    /// Internal id assigned by the index.
    pub internal_id: i64,
    /// `true` if an animal body-crop was used; `false` if whole-image fallback.
    pub detected: bool,
}

/// Request body for `POST /query`.
#[derive(Debug, Clone, PartialEq, Eq)]
pub struct QueryRequest {
    /// URL of the query photo, if available.
    pub image_url: Option<String>,
    /// Base64-encoded JPEG/PNG, if no URL is available.
    pub image_b64: Option<String>,
    /// Number of nearest neighbours requested.
    pub k: u32,
    /// If set, restrict results to `"dog"` or `"cat"`.
    pub species_filter: Option<String>,
}

impl QueryRequest {
    /// The body of the request. What is not given is left out.
    pub fn to_json(&self) -> (res: Value)
        ensures
            json::contents(res) == Json::Object(
                with_text(
                    with_text(
                        with_text(Map::empty(), "image_url"@, self.image_url.deep_view()),
                        "image_b64"@,
                        self.image_b64.deep_view(),
                    ).insert("k"@, Json::Int(self.k as int)),
                    "species_filter"@,
                    self.species_filter.deep_view(),
                ),
            ),
    {
        let mut pairs: Vec<(String, Value)> = Vec::new();
        assert(json::object_of(pairs@) =~= Map::empty());
        add_text(&mut pairs, "image_url", &self.image_url);
        add_text(&mut pairs, "image_b64", &self.image_b64);
        let ghost before = pairs@;
        pairs.push(("k".to_owned(), json::number(self.k as u64)));
        assert(pairs@.drop_last() =~= before);
        add_text(&mut pairs, "species_filter", &self.species_filter);
        json::object(pairs)
    }
}

// ---------------------------------------------------------------------------
// Replies
// ---------------------------------------------------------------------------

/// Errors of the sidecar client.
#[derive(Debug, Clone, PartialEq, Eq)]
pub enum EmbedClientError {
    /// Failed to build the underlying HTTP client.
    Build(String),
    /// HTTP transport error (connection refused, timeout, etc.).
    Transport(String),
    /// The sidecar returned a non-2xx status.
    Status {
        /// HTTP status code.
        status: u16,
        /// Response body.
        body: String,
    },
    /// Could not decode the sidecar's JSON response.
    Decode(String),
}

impl EmbedClientError {
    /// The error as a sentence.
    pub fn message(&self) -> (res: String)
        ensures
            res@ == (match self {
                EmbedClientError::Build(e) => "failed to build HTTP client: "@ + e@,
                EmbedClientError::Transport(e) => "transport error calling embed sidecar: "@ + e@,
                EmbedClientError::Status { status, body } => "embed sidecar returned HTTP "@
                    + text::decimal(*status as nat) + ": "@ + body@,
                EmbedClientError::Decode(e) => "could not decode embed sidecar response: "@ + e@,
            }),
    {
        match self {
            EmbedClientError::Build(e) => "failed to build HTTP client: ".to_owned().concat(e),
            EmbedClientError::Transport(e) => "transport error calling embed sidecar: ".to_owned().concat(
                e,
            ),
            EmbedClientError::Status { status, body } => "embed sidecar returned HTTP ".to_owned().concat(
                &text::write_decimal(*status as u64),
            ).concat(": ").concat(body),
            EmbedClientError::Decode(e) => "could not decode embed sidecar response: ".to_owned().concat(
                e,
            ),
        }
    }
}

/// Whether a status means success.
pub open spec fn is_success(status: u16) -> bool {
    200 <= status < 300
}

/// Judges the status of a reply, before its body is decoded. A body that could
/// not be read is `None`.
pub fn check_status(status: u16, body: Option<String>) -> (res: Result<(), EmbedClientError>)
    ensures
        match res {
            Ok(()) => is_success(status),
            Err(e) => !is_success(status) && (e matches EmbedClientError::Status {
                status: code,
                body: said,
            } && code == status && said@ == (match body {
                Some(b) => b@,
                None => "<unreadable body>"@,
            })),
        },
{
    if 200 <= status && status < 300 {
        return Ok(());
    }
    let body = match body {
        Some(b) => b,
        None => "<unreadable body>".to_owned(),
    };
    Err(EmbedClientError::Status { status, body })
}

/// Whether the sidecar is healthy: it was reached, and answered with success.
pub fn is_healthy(status: Option<u16>) -> (res: bool)
    ensures
        res == (status is Some && is_success(status->0)),
{
    match status {
        Some(status) => 200 <= status && status < 300,
        None => false,
    }
}

// ---------------------------------------------------------------------------
// Laws
// ---------------------------------------------------------------------------

/// A variable that is set to a number which fits says that number; one that is not
/// set, is empty, or is set to a number which does not fit has its default.
pub proof fn settings_are_numbers_that_fit(digits: Seq<char>, max: nat, default: nat)
    requires
        query::is_count(digits),
    ensures
        setting(Some(digits), max, default) == (if query::count_of(digits) <= max {
            query::count_of(digits)
        } else {
            default as int
        }),
        setting(Some(Seq::empty()), max, default) == default,
        setting(None, max, default) == default,
{
    query::digits_parse(digits);
}

/// The sidecar is asked by HTTP at its host and its port, which is written in
/// decimal; a request is given ten seconds where nothing else is set.
pub proof fn sidecars_are_asked_at_their_port(host: Seq<char>, port: nat)
    ensures
        exists|p: Seq<char>| #[trigger]
            query::is_count(p) && query::count_of(p) == port && base_url_of(host, port)
                == "http://"@ + host + ":"@ + p,
        DEFAULT_TIMEOUT_SECS == 10,
        DEFAULT_PORT == 8741,
        DEFAULT_HOST@ == "127.0.0.1"@,
{
    query::decimals_read_back(port);
    assert(query::is_count(text::decimal(port)));
}

/// A status means success where its first of three digits is a two.
pub proof fn success_begins_with_two(status: u16)
    ensures
        is_success(status) <==> status / 100 == 2,
{
}

/// A member with a value is written beside the others; one without is left out.
pub proof fn only_what_is_given_is_written(m: Map<Seq<char>, Json>, key: Seq<char>, s: Seq<char>)
    ensures
        with_text(m, key, None) == m,
        with_text(m, key, Some(s)).dom() == m.dom().insert(key),
        with_text(m, key, Some(s))[key] == Json::Text(s),
        forall|k: Seq<char>| k != key && m.dom().contains(k) ==> #[trigger] with_text(
            m,
            key,
            Some(s),
        )[k] == m[k],
{
}

} // verus!
