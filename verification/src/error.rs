//! What can go wrong while a source is polled.

use vstd::prelude::*;

use crate::query;
use crate::text;
use crate::web;
use url::Url;

verus! {

/// Errors that can arise during a connector poll.
#[derive(Debug, PartialEq, Eq)]
pub enum ConnectorError {
    /// HTTP transport error, in the transport's words.
    Http(String),
    /// The source returned an unexpected response status.
    UnexpectedStatus {
        /// HTTP status code.
        status: u16,
        /// Response body (truncated).
        body: String,
    },
    /// JSON deserialization failed, in the parser's words.
    Json(String),
    /// A required field was missing from the source response.
    MissingField {
        /// Name of the missing field.
        field: String,
        /// Context string (e.g. resource ID) for diagnosis.
        context: String,
    },
    /// Species value from source could not be mapped.
    UnknownSpecies(String),
    /// Rate-limited after all retries exhausted.
    RateLimitExhausted {
        /// The host that rate-limited us.
        host: String,
    },
    /// The source's robots.txt disallows our path.
    RobotsDisallowed {
        /// The disallowed path.
        path: String,
        /// The User-Agent used.
        user_agent: String,
    },
    /// Connector name not found in the registry.
    UnknownConnector(String),
    /// URL parsing error, in the parser's words.
    Url(String),
    /// Configuration error.
    Config(String),
    /// The source family named by this config entry has no built connector yet.
    ///
    /// The inner `String` is the source name, not the family name.
    FamilyNotBuilt(String),
}

/// The model of a [`ConnectorError`].
pub enum ConnectorErrorView {
    /// HTTP transport error.
    Http(Seq<char>),
    /// Unexpected response status.
    UnexpectedStatus { status: u16, body: Seq<char> },
    /// JSON deserialization failed.
    Json(Seq<char>),
    /// A required field was missing.
    MissingField { field: Seq<char>, context: Seq<char> },
    /// Species value could not be mapped.
    UnknownSpecies(Seq<char>),
    /// Rate-limited after all retries exhausted.
    RateLimitExhausted { host: Seq<char> },
    /// The source's robots.txt disallows our path.
    RobotsDisallowed { path: Seq<char>, user_agent: Seq<char> },
    /// Connector name not found.
    UnknownConnector(Seq<char>),
    /// URL parsing error.
    Url(Seq<char>),
    /// Configuration error.
    Config(Seq<char>),
    /// No connector is built for the family.
    FamilyNotBuilt(Seq<char>),
}

impl DeepView for ConnectorError {
    type V = ConnectorErrorView;

    open spec fn deep_view(&self) -> ConnectorErrorView {
        match self {
            ConnectorError::Http(e) => ConnectorErrorView::Http(e@),
            ConnectorError::UnexpectedStatus { status, body } =>
                ConnectorErrorView::UnexpectedStatus { status: *status, body: body@ },
            ConnectorError::Json(e) => ConnectorErrorView::Json(e@),
            ConnectorError::MissingField { field, context } => ConnectorErrorView::MissingField {
                field: field@,
                context: context@,
            },
            ConnectorError::UnknownSpecies(s) => ConnectorErrorView::UnknownSpecies(s@),
            ConnectorError::RateLimitExhausted { host } =>
                ConnectorErrorView::RateLimitExhausted { host: host@ },
            ConnectorError::RobotsDisallowed { path, user_agent } =>
                ConnectorErrorView::RobotsDisallowed { path: path@, user_agent: user_agent@ },
            ConnectorError::UnknownConnector(s) => ConnectorErrorView::UnknownConnector(s@),
            ConnectorError::Url(e) => ConnectorErrorView::Url(e@),
            ConnectorError::Config(e) => ConnectorErrorView::Config(e@),
            ConnectorError::FamilyNotBuilt(s) => ConnectorErrorView::FamilyNotBuilt(s@),
        }
    }
}

impl ConnectorErrorView {
    /// The error in words.
    pub open spec fn message(self) -> Seq<char> {
        match self {
            ConnectorErrorView::Http(e) => "HTTP error: "@ + e,
            ConnectorErrorView::UnexpectedStatus { status, body } => "unexpected HTTP status "@
                + text::decimal(status as nat) + ": "@ + body,
            ConnectorErrorView::Json(e) => "JSON parse error: "@ + e,
            ConnectorErrorView::MissingField { field, context } => "missing required field: "@
                + field + " in record "@ + context,
            ConnectorErrorView::UnknownSpecies(s) => "unknown species: "@ + text::quoted(s),
            ConnectorErrorView::RateLimitExhausted { host } =>
                "rate-limited: all retries exhausted for "@ + host,
            ConnectorErrorView::RobotsDisallowed { path, user_agent } =>
                "robots.txt disallows path "@ + path + " for "@ + user_agent,
            ConnectorErrorView::UnknownConnector(s) => "unknown connector: "@ + text::quoted(s),
            ConnectorErrorView::Url(e) => "URL error: "@ + e,
            ConnectorErrorView::Config(e) => "configuration error: "@ + e,
            ConnectorErrorView::FamilyNotBuilt(s) =>
                "connector family not yet built for source "@ + text::quoted(s),
        }
    }
}

impl ConnectorError {
    /// The error in words.
    pub fn message(&self) -> (res: String)
        ensures
            res@ == self.deep_view().message(),
    {
        match self {
            ConnectorError::Http(e) => "HTTP error: ".to_owned().concat(e),
            ConnectorError::UnexpectedStatus { status, body } => "unexpected HTTP status "
                .to_owned().concat(&text::write_decimal(*status as u64)).concat(": ").concat(body),
            ConnectorError::Json(e) => "JSON parse error: ".to_owned().concat(e),
            ConnectorError::MissingField { field, context } => "missing required field: "
                .to_owned().concat(field).concat(" in record ").concat(context),
            ConnectorError::UnknownSpecies(s) => "unknown species: ".to_owned().concat(
                &text::quote(s),
            ),
            ConnectorError::RateLimitExhausted { host } =>
                "rate-limited: all retries exhausted for ".to_owned().concat(host),
            ConnectorError::RobotsDisallowed { path, user_agent } => "robots.txt disallows path "
                .to_owned().concat(path).concat(" for ").concat(user_agent),
            ConnectorError::UnknownConnector(s) => "unknown connector: ".to_owned().concat(
                &text::quote(s),
            ),
            ConnectorError::Url(e) => "URL error: ".to_owned().concat(e),
            ConnectorError::Config(e) => "configuration error: ".to_owned().concat(e),
            ConnectorError::FamilyNotBuilt(s) => "connector family not yet built for source "
                .to_owned().concat(&text::quote(s)),
        }
    }
}

/// A URL's text, or the error that its parser's complaint becomes.
pub open spec fn url_result(res: Result<Seq<char>, Seq<char>>) -> Result<
    Seq<char>,
    ConnectorErrorView,
> {
    match res {
        Ok(t) => Ok(t),
        Err(e) => Err(ConnectorErrorView::Url(e)),
    }
}

/// The text of a result's URL, or the model of its error.
pub open spec fn url_outcome(res: Result<Url, ConnectorError>) -> Result<
    Seq<char>,
    ConnectorErrorView,
> {
    match res {
        Ok(u) => Ok(web::url_text(u)),
        Err(e) => Err(e.deep_view()),
    }
}

/// Turns a URL parser's complaint into a [`ConnectorError::Url`].
pub fn url_or_error(res: Result<Url, String>) -> (out: Result<Url, ConnectorError>)
    ensures
        url_outcome(out) == url_result(web::text_or(res)),
{
    match res {
        Ok(u) => Ok(u),
        Err(e) => Err(ConnectorError::Url(e)),
    }
}

// ---------------------------------------------------------------------------
// Laws
// ---------------------------------------------------------------------------

/// Each error says in words what went wrong, and with what.
pub proof fn errors_say_what_went_wrong(a: Seq<char>, b: Seq<char>, status: u16)
    ensures
        ConnectorErrorView::Http(a).message() == "HTTP error: "@ + a,
        exists|code: Seq<char>| #[trigger]
            query::is_count(code) && query::count_of(code) == status
                && (ConnectorErrorView::UnexpectedStatus { status, body: a }).message()
                == "unexpected HTTP status "@ + code + ": "@ + a,
        ConnectorErrorView::Json(a).message() == "JSON parse error: "@ + a,
        (ConnectorErrorView::MissingField { field: a, context: b }).message()
            == "missing required field: "@ + a + " in record "@ + b,
        ConnectorErrorView::UnknownSpecies(a).message() == "unknown species: "@ + text::quoted(a),
        (ConnectorErrorView::RateLimitExhausted { host: a }).message()
            == "rate-limited: all retries exhausted for "@ + a,
        (ConnectorErrorView::RobotsDisallowed { path: a, user_agent: b }).message()
            == "robots.txt disallows path "@ + a + " for "@ + b,
        ConnectorErrorView::UnknownConnector(a).message() == "unknown connector: "@ + text::quoted(
            a,
        ),
        ConnectorErrorView::Url(a).message() == "URL error: "@ + a,
        ConnectorErrorView::Config(a).message() == "configuration error: "@ + a,
        ConnectorErrorView::FamilyNotBuilt(a).message()
            == "connector family not yet built for source "@ + text::quoted(a),
        url_result(Ok(a)) == Ok::<Seq<char>, ConnectorErrorView>(a),
        url_result(Err(a)) == Err::<Seq<char>, ConnectorErrorView>(ConnectorErrorView::Url(a)),
{
    query::decimals_read_back(status as nat);
    assert(query::is_count(text::decimal(status as nat)));
}

} // verus!
