//! Instants in UTC, and the calendar functions of `chrono` that read and write
//! them.

use chrono::{DateTime, NaiveDate, NaiveDateTime, SecondsFormat, Utc};
use vstd::prelude::*;

use crate::outcome;

verus! {

/// An instant, as a count of seconds since 1970-01-01T00:00:00Z and the
/// nanoseconds past that second.
///
/// `nanos` reaches one billion only within a leap second.
pub struct Moment {
    /// Whole seconds since the epoch.
    pub secs: int,
    /// Nanoseconds past the second.
    pub nanos: int,
}

/// The first second that the calendar reaches: year -262143.
pub const FIRST_SECOND: i64 = -8334601228800;

/// The last second that the calendar reaches: year 262142.
pub const LAST_SECOND: i64 = 8210266876799;

impl Moment {
    /// Whether the calendar has this instant.
    pub open spec fn valid(self) -> bool {
        &&& FIRST_SECOND <= self.secs <= LAST_SECOND
        &&& 0 <= self.nanos < 2_000_000_000
        &&& self.nanos >= 1_000_000_000 ==> self.secs % 60 == 59
    }

    /// Whether the instant lies in the years 0 to 9999.
    pub open spec fn four_digit_year(self) -> bool {
        -62167219200 <= self.secs <= 253402300799
    }

    /// Nanoseconds since the epoch.
    pub open spec fn total_nanos(self) -> int {
        self.secs * 1_000_000_000 + self.nanos
    }

    /// Whether this instant comes after `other`.
    pub open spec fn after(self, other: Moment) -> bool {
        self.secs > other.secs || (self.secs == other.secs && self.nanos > other.nanos)
    }
}

/// An instant in UTC.
#[derive(Debug, Clone, Copy, PartialEq, Eq, Structural)]
pub struct Timestamp {
    secs: i64,
    nanos: u32,
}

impl View for Timestamp {
    type V = Moment;

    closed spec fn view(&self) -> Moment {
        Moment { secs: self.secs as int, nanos: self.nanos as int }
    }
}

impl DeepView for Timestamp {
    type V = Moment;

    open spec fn deep_view(&self) -> Moment {
        self@
    }
}

impl Timestamp {
    #[verifier::type_invariant]
    spec fn in_calendar(self) -> bool {
        self@.valid()
    }

    /// The instant `secs` seconds and `nanos` nanoseconds after the epoch, if
    /// the calendar has it.
    pub fn new(secs: i64, nanos: u32) -> (res: Option<Timestamp>)
        ensures
            match res {
                Some(t) => t@ == (Moment { secs: secs as int, nanos: nanos as int }) && t@.valid(),
                None => !(Moment { secs: secs as int, nanos: nanos as int }).valid(),
            },
    {
        if secs < FIRST_SECOND || secs > LAST_SECOND || nanos >= 2_000_000_000 {
            return None;
        }
        if nanos >= 1_000_000_000 && (secs - FIRST_SECOND) % 60 != 59 {
            return None;
        }
        Some(Timestamp { secs, nanos })
    }

    /// Whole seconds since the epoch.
    pub fn seconds(&self) -> (res: i64)
        ensures
            res == self@.secs,
    {
        self.secs
    }

    /// Nanoseconds past the second.
    pub fn subsec_nanos(&self) -> (res: u32)
        ensures
            res == self@.nanos,
    {
        self.nanos
    }

    /// The later of two instants.
    pub fn later_of(self, other: Timestamp) -> (res: Timestamp)
        ensures
            res@ == (if self@.after(other@) { self@ } else { other@ }),
    {
        if self.secs > other.secs || (self.secs == other.secs && self.nanos > other.nanos) {
            self
        } else {
            other
        }
    }
}

/// Whether a clock can show this instant: the calendar has it, and it lies
/// outside a leap second.
pub open spec fn clock_shows(m: Moment) -> bool {
    m.valid() && ordinary(m)
}

/// `Utc::now`: the current instant, which lies in the calendar and, as its
/// nanoseconds are always fewer than a second's, outside a leap second. Nothing is
/// said of which instant it is.
#[verifier::external_body]
pub(crate) fn now() -> (res: Timestamp)
    ensures
        clock_shows(res@),
{
    let now = Utc::now();
    Timestamp { secs: now.timestamp(), nanos: now.timestamp_subsec_nanos() }
}

/// What `DateTime::parse_from_rfc3339` reads in a text: an instant, or its
/// complaint.
pub uninterp spec fn rfc3339_instant(s: Seq<char>) -> Result<Moment, Seq<char>>;

/// Whether a text is read as the instant `secs` whole seconds after the epoch.
pub open spec fn reads_as(s: Seq<char>, secs: int) -> bool {
    rfc3339_instant(s) == Ok::<Moment, Seq<char>>(Moment { secs, nanos: 0 })
}

/// `DateTime::parse_from_rfc3339`: the instant that the text names, or the
/// complaint, each a function of the text alone.
#[verifier::external_body]
pub(crate) fn read_rfc3339(s: &str) -> (res: Result<Timestamp, String>)
    ensures
        outcome::of(res) == rfc3339_instant(s@),
{
    match DateTime::parse_from_rfc3339(s) {
        Ok(dt) => Ok(Timestamp { secs: dt.timestamp(), nanos: dt.timestamp_subsec_nanos() }),
        Err(e) => Err(e.to_string()),
    }
}

/// What `NaiveDateTime::parse_from_str` reads in a text with a given format,
/// taken as UTC.
pub uninterp spec fn formatted_instant(s: Seq<char>, format: Seq<char>) -> Option<Moment>;

/// `NaiveDateTime::parse_from_str`: the date and time that the text names in
/// the given format, taken as UTC; a function of the two texts alone.
#[verifier::external_body]
pub(crate) fn read_datetime(s: &str, format: &str) -> (res: Option<Timestamp>)
    ensures
        res.deep_view() == formatted_instant(s@, format@),
{
    let dt = NaiveDateTime::parse_from_str(s, format).ok()?.and_utc();
    Some(Timestamp { secs: dt.timestamp(), nanos: dt.timestamp_subsec_nanos() })
}

/// What `NaiveDate::parse_from_str` reads in a text with a given format, taken
/// as midnight UTC of that day.
pub uninterp spec fn formatted_day(s: Seq<char>, format: Seq<char>) -> Option<Moment>;

/// `NaiveDate::parse_from_str`: the day that the text names in the given
/// format, as its midnight in UTC; a function of the two texts alone.
#[verifier::external_body]
pub(crate) fn read_date(s: &str, format: &str) -> (res: Option<Timestamp>)
    ensures
        res.deep_view() == formatted_day(s@, format@),
{
    let dt = NaiveDate::parse_from_str(s, format).ok()?.and_hms_opt(0, 0, 0)?.and_utc();
    Some(Timestamp { secs: dt.timestamp(), nanos: dt.timestamp_subsec_nanos() })
}

/// The instant a number of milliseconds after the epoch, if the calendar has
/// it.
pub open spec fn millis_instant(millis: int) -> Option<Moment> {
    let m = Moment { secs: millis / 1000, nanos: (millis % 1000) * 1_000_000 };
    if m.valid() {
        Some(m)
    } else {
        None
    }
}

/// `DateTime::from_timestamp_millis`: the instant that many milliseconds after
/// the epoch; nothing where the calendar does not reach.
#[verifier::external_body]
pub(crate) fn from_millis(millis: i64) -> (res: Option<Timestamp>)
    ensures
        res.deep_view() == millis_instant(millis as int),
{
    let dt = DateTime::from_timestamp_millis(millis)?;
    Some(Timestamp { secs: dt.timestamp(), nanos: dt.timestamp_subsec_nanos() })
}

/// `DateTime::timestamp_millis`: whole milliseconds since the epoch.
#[verifier::external_body]
pub(crate) fn to_millis(t: &Timestamp) -> (res: i64)
    ensures
        res == t@.secs * 1000 + t@.nanos / 1_000_000,
{
    DateTime::from_timestamp(t.secs, t.nanos).unwrap().timestamp_millis()
}

/// The date-and-time patterns that this crate writes instants in.
pub open spec fn known_pattern(format: Seq<char>) -> bool {
    format == "%Y-%m-%dT%H:%M:%S"@ || format == "%Y-%m-%dT%H:%M:%SZ"@
}

/// What `DateTime::format` makes of an instant in a given format.
pub uninterp spec fn formatted(m: Moment, format: Seq<char>) -> Seq<char>;

/// `DateTime::format`: the instant written in the given format; a function of
/// the instant and the format alone.
#[verifier::external_body]
pub(crate) fn write_datetime(t: &Timestamp, format: &str) -> (res: String)
    requires
        known_pattern(format@),
    ensures
        res@ == formatted(t@, format@),
{
    DateTime::from_timestamp(t.secs, t.nanos).unwrap().format(format).to_string()
}

/// What `DateTime::to_rfc3339_opts` makes of an instant in whole seconds with a
/// `Z` for the offset.
pub uninterp spec fn rfc3339_seconds(m: Moment) -> Seq<char>;

/// `DateTime::to_rfc3339_opts` with `SecondsFormat::Secs` and `Z`: a function
/// of the instant alone, without a space and ending in `Z`. In the years 0 to
/// 9999 and outside a leap second the text reads back as the instant cut to
/// whole seconds.
#[verifier::external_body]
pub(crate) fn write_rfc3339_seconds(t: &Timestamp) -> (res: String)
    ensures
        res@ == rfc3339_seconds(t@),
        res@.len() > 0 && res@.last() == 'Z',
        !res@.contains(' '),
        t@.four_digit_year() && t@.nanos < 1_000_000_000 ==> reads_as(res@, t@.secs),
{
    DateTime::from_timestamp(t.secs, t.nanos).unwrap().to_rfc3339_opts(SecondsFormat::Secs, true)
}

/// What `DateTime::to_rfc3339` makes of an instant.
pub uninterp spec fn rfc3339_full(m: Moment) -> Seq<char>;

/// `DateTime::to_rfc3339`: the instant with its fraction and a `+00:00` offset;
/// a function of the instant alone.
#[verifier::external_body]
pub(crate) fn write_rfc3339(t: &Timestamp) -> (res: String)
    ensures
        res@ == rfc3339_full(t@),
{
    DateTime::from_timestamp(t.secs, t.nanos).unwrap().to_rfc3339()
}

/// What chrono counts as the whole seconds between two instants of which one
/// lies in a leap second.
pub uninterp spec fn leap_seconds_between(earlier: Moment, later: Moment) -> int;

/// Whether the instant lies outside a leap second.
pub open spec fn ordinary(m: Moment) -> bool {
    m.nanos < 1_000_000_000
}

/// The whole seconds from one instant to another, cut towards zero.
pub open spec fn seconds_between(earlier: Moment, later: Moment) -> int {
    if ordinary(earlier) && ordinary(later) {
        whole_seconds(later.total_nanos() - earlier.total_nanos())
    } else {
        leap_seconds_between(earlier, later)
    }
}

/// Whole seconds in a number of nanoseconds, cut towards zero.
pub open spec fn whole_seconds(nanos: int) -> int {
    if nanos >= 0 {
        nanos / 1_000_000_000
    } else {
        -((-nanos) / 1_000_000_000)
    }
}

/// `DateTime::signed_duration_since` and `TimeDelta::num_seconds`: the whole
/// seconds from one instant to another, a function of the two. Where neither
/// lies in a leap second this is their difference cut towards zero.
#[verifier::external_body]
fn signed_seconds(earlier: &Timestamp, later: &Timestamp) -> (res: i64)
    ensures
        ordinary(earlier@) && ordinary(later@) ==> res == whole_seconds(
            later@.total_nanos() - earlier@.total_nanos(),
        ),
        !(ordinary(earlier@) && ordinary(later@)) ==> res == leap_seconds_between(
            earlier@,
            later@,
        ),
{
    let from = DateTime::from_timestamp(earlier.secs, earlier.nanos).unwrap();
    let to = DateTime::from_timestamp(later.secs, later.nanos).unwrap();
    to.signed_duration_since(from).num_seconds()
}

/// The whole seconds from one instant to another, cut towards zero.
pub fn elapsed_seconds(earlier: &Timestamp, later: &Timestamp) -> (res: i64)
    ensures
        res == seconds_between(earlier@, later@),
{
    signed_seconds(earlier, later)
}

// ---------------------------------------------------------------------------
// Laws
// ---------------------------------------------------------------------------

/// Outside leap seconds an instant comes after another exactly where more
/// nanoseconds have gone by.
pub proof fn later_means_more_nanoseconds(a: Moment, b: Moment)
    requires
        0 <= a.nanos < 1_000_000_000,
        0 <= b.nanos < 1_000_000_000,
    ensures
        a.after(b) <==> a.secs * 1_000_000_000 + a.nanos > b.secs * 1_000_000_000 + b.nanos,
        a.after(b) ==> !b.after(a),
        !a.after(b) && !b.after(a) ==> a == b,
{
}

/// The seconds between two instants outside leap seconds are the whole ones: they
/// are no more than what went by, and one more would be; and they are counted
/// backwards where the second instant is the earlier.
pub proof fn whole_seconds_are_counted(a: Moment, b: Moment)
    requires
        0 <= a.nanos < 1_000_000_000,
        0 <= b.nanos < 1_000_000_000,
    ensures
        ({
            let gone = (b.secs - a.secs) * 1_000_000_000 + (b.nanos - a.nanos);
            let n = seconds_between(a, b);
            &&& gone >= 0 ==> n >= 0 && n * 1_000_000_000 <= gone < (n + 1) * 1_000_000_000
            &&& gone <= 0 ==> n <= 0 && (n - 1) * 1_000_000_000 < gone <= n * 1_000_000_000
            &&& seconds_between(b, a) == -n
        }),
{
}

} // verus!
