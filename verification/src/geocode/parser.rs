//! Reads the free text of where an animal was found.
//!
//! Recognized forms, tried in this order:
//!
//! - a ZIP code of five digits: `"78701"`
//! - `"City, ST"`, with anything before it: `"Near downtown, Austin, TX"`
//! - `"City ST"`, without a comma: `"Long Beach CA"`
//!
//! Text that matches none of them is not guessed at.

use vstd::prelude::*;

use crate::geocode::gazetteer;
use crate::geocode::gazetteer::{EntryView, Gazetteer, GazetteerEntry};
use crate::schema::{LocationView, ShelterLocation};
use crate::text;

verus! {

/// What a text of where an animal was found was read as.
#[derive(Debug, Clone, PartialEq, Eq)]
pub enum ParsedLocation {
    /// A coarse location.
    Resolved(ShelterLocation),
    /// The text has a recognized form but is not in the gazetteer.
    NotInGazetteer,
    /// The text has no recognized form.
    Unrecognised,
}

/// The model of a [`ParsedLocation`].
pub enum ParsedView {
    /// A coarse location.
    Resolved(LocationView),
    /// The text has a recognized form but is not in the gazetteer.
    NotInGazetteer,
    /// The text has no recognized form.
    Unrecognised,
}

impl DeepView for ParsedLocation {
    type V = ParsedView;

    open spec fn deep_view(&self) -> ParsedView {
        match self {
            ParsedLocation::Resolved(loc) => ParsedView::Resolved(loc.deep_view()),
            ParsedLocation::NotInGazetteer => ParsedView::NotInGazetteer,
            ParsedLocation::Unrecognised => ParsedView::Unrecognised,
        }
    }
}

// ---------------------------------------------------------------------------
// States
// ---------------------------------------------------------------------------

/// The abbreviations of the states and territories.
pub const STATES: [&'static str; 56] = [
    "AL",
    "AK",
    "AZ",
    "AR",
    "CA",
    "CO",
    "CT",
    "DE",
    "FL",
    "GA",
    "HI",
    "ID",
    "IL",
    "IN",
    "IA",
    "KS",
    "KY",
    "LA",
    "ME",
    "MD",
    "MA",
    "MI",
    "MN",
    "MS",
    "MO",
    "MT",
    "NE",
    "NV",
    "NH",
    "NJ",
    "NM",
    "NY",
    "NC",
    "ND",
    "OH",
    "OK",
    "OR",
    "PA",
    "RI",
    "SC",
    "SD",
    "TN",
    "TX",
    "UT",
    "VT",
    "VA",
    "WA",
    "WV",
    "WI",
    "WY",
    "DC",
    "AS",
    "GU",
    "MP",
    "PR",
    "VI",
];

/// Whether a text is the abbreviation of a state or territory, in whatever case
/// it is written.
pub open spec fn is_state(s: Seq<char>) -> bool {
    exists|i: int| 0 <= i < 56 && (#[trigger] STATES@[i])@ == text::uppercase(s)
}

/// Whether a text is the abbreviation of a state or territory, in whatever case
/// it is written.
#[must_use]
pub fn is_state_abbr(s: &str) -> (res: bool)
    ensures
        res == is_state(s@),
{
    let upper = text::upper(s);
    let mut i: usize = 0;
    while i < 56
        invariant
            i <= 56,
            upper@ == text::uppercase(s@),
            forall|j: int| 0 <= j < i ==> (#[trigger] STATES@[j])@ != upper@,
        decreases 56 - i,
    {
        if text::same(STATES[i], &upper) {
            assert(STATES@[i as int]@ == text::uppercase(s@));
            return true;
        }
        i += 1;
    }
    false
}

// ---------------------------------------------------------------------------
// Forms
// ---------------------------------------------------------------------------

/// Whether a word is five digits.
pub open spec fn is_five_digits(word: Seq<char>) -> bool {
    word.len() == 5 && text::all_digits(word)
}

/// The last of the words that is five digits.
pub open spec fn last_five_digits(words: Seq<Seq<char>>) -> Option<Seq<char>>
    decreases words.len(),
{
    if words.len() == 0 {
        None
    } else if is_five_digits(words.last()) {
        Some(words.last())
    } else {
        last_five_digits(words.drop_last())
    }
}

fn five_digits(word: &str) -> (res: bool)
    ensures
        res == is_five_digits(word@),
{
    let chars = text::chars_of(word);
    if chars.len() != 5 {
        return false;
    }
    let mut i: usize = 0;
    while i < chars.len()
        invariant
            i <= chars.len(),
            chars@ == word@,
            forall|j: int| 0 <= j < i ==> text::is_digit(#[trigger] word@[j]),
        decreases chars.len() - i,
    {
        let c = chars[i];
        if c < '0' || c > '9' {
            assert(!text::is_digit(word@[i as int]));
            return false;
        }
        i += 1;
    }
    true
}

/// The last word of a text that is five digits.
pub fn last_five_digit_token(text: &str) -> (res: Option<String>)
    ensures
        res.deep_view() == last_five_digits(text::words_of(text@)),
{
    let words = text::words(text);
    let ghost all = words.deep_view();
    let mut n: usize = words.len();
    assert(all.take(n as int) =~= all);
    while n > 0
        invariant
            n <= words.len(),
            all == words.deep_view(),
            all == text::words_of(text@),
            last_five_digits(all.take(n as int)) == last_five_digits(all),
        decreases n,
    {
        n -= 1;
        proof {
            assert(all.take(n + 1).drop_last() =~= all.take(n as int));
            assert(all.take(n + 1).last() == words@[n as int]@);
        }
        if five_digits(&words[n]) {
            return Some(words[n].clone());
        }
    }
    None
}

/// The city and the state of a text of the form `"..., City, ST"`.
pub open spec fn comma_form(s: Seq<char>) -> Option<(Seq<char>, Seq<char>)> {
    let parts = text::split_on(s, ',');
    let state = text::trimmed(parts.last());
    if parts.len() < 2 || !is_state(state) {
        None
    } else {
        Some((text::trimmed(parts[parts.len() - 2]), state))
    }
}

/// The city and the state of a text of the form `"City ST"`, without a comma:
/// everything before the state is the city.
pub open spec fn space_form(s: Seq<char>) -> Option<(Seq<char>, Seq<char>)> {
    let words = text::words_of(s);
    if s.contains(',') || words.len() < 2 || !is_state(words.last()) {
        None
    } else {
        Some((text::joined(words.drop_last(), " "@), words.last()))
    }
}

/// The model of a city and a state.
pub open spec fn form_view(form: Option<(String, String)>) -> Option<(Seq<char>, Seq<char>)> {
    match form {
        Some((city, state)) => Some((city@, state@)),
        None => None,
    }
}

fn read_comma_form(s: &str) -> (res: Option<(String, String)>)
    ensures
        form_view(res) == comma_form(s@),
{
    let parts = text::split(s, ',');
    let n = parts.len();
    if n < 2 {
        return None;
    }
    proof {
        let all = parts.deep_view();
        assert(all.last() == parts@[n - 1]@);
        assert(all[n - 2] == parts@[n - 2]@);
    }
    let state = parts[n - 1].as_str().trim();
    if !is_state_abbr(state) {
        return None;
    }
    Some((parts[n - 2].as_str().trim().to_owned(), state.to_owned()))
}

fn has_comma(s: &str) -> (res: bool)
    ensures
        res == s@.contains(','),
{
    let chars = text::chars_of(s);
    let mut i: usize = 0;
    while i < chars.len()
        invariant
            i <= chars.len(),
            chars@ == s@,
            forall|j: int| 0 <= j < i ==> #[trigger] s@[j] != ',',
        decreases chars.len() - i,
    {
        if chars[i] == ',' {
            assert(s@[i as int] == ',');
            return true;
        }
        i += 1;
    }
    false
}

fn read_space_form(s: &str) -> (res: Option<(String, String)>)
    ensures
        form_view(res) == space_form(s@),
{
    if has_comma(s) {
        return None;
    }
    let words = text::words(s);
    let n = words.len();
    if n < 2 {
        return None;
    }
    proof {
        let all = words.deep_view();
        assert(all.last() == words@[n - 1]@);
        assert(all.take(n - 1) =~= all.drop_last());
    }
    if !is_state_abbr(&words[n - 1]) {
        return None;
    }
    Some((text::join_first(&words, n - 1, " "), words[n - 1].clone()))
}

// ---------------------------------------------------------------------------
// Strategies
// ---------------------------------------------------------------------------

/// The entry that the ZIP code in a text stands for.
pub open spec fn by_zip(s: Seq<char>, entries: Seq<EntryView>) -> Option<EntryView> {
    match last_five_digits(text::words_of(s)) {
        Some(zip) => gazetteer::entry_of_zip(entries, zip),
        None => None,
    }
}

/// The entry that a city and a state stand for.
pub open spec fn by_form(
    form: Option<(Seq<char>, Seq<char>)>,
    entries: Seq<EntryView>,
) -> Option<EntryView> {
    match form {
        Some((city, state)) => gazetteer::entry_named(entries, city, state),
        None => None,
    }
}

/// Whether a text has a recognized form.
pub open spec fn is_recognized(s: Seq<char>) -> bool {
    ||| last_five_digits(text::words_of(s)) is Some
    ||| comma_form(s) is Some
    ||| space_form(s) is Some
}

/// The entry that a text stands for, by the first form that leads to one.
pub open spec fn entry_for(s: Seq<char>, entries: Seq<EntryView>) -> Option<EntryView> {
    match by_zip(s, entries) {
        Some(e) => Some(e),
        None => match by_form(comma_form(s), entries) {
            Some(e) => Some(e),
            None => by_form(space_form(s), entries),
        },
    }
}

/// What a text of where an animal was found is read as.
pub open spec fn parsed_location(s: Seq<char>, entries: Seq<EntryView>) -> ParsedView {
    let trimmed = text::trimmed(s);
    match entry_for(trimmed, entries) {
        Some(e) => ParsedView::Resolved(gazetteer::place_of(e)),
        None => if is_recognized(trimmed) {
            ParsedView::NotInGazetteer
        } else {
            ParsedView::Unrecognised
        },
    }
}

fn find_form<'a>(form: &Option<(String, String)>, gazetteer: &'a Gazetteer) -> (res: Option<
    &'a GazetteerEntry,
>)
    ensures
        gazetteer::found(res) == by_form(form_view(*form), gazetteer@),
{
    match form {
        Some((city, state)) => gazetteer.lookup_name_state(city, state),
        None => None,
    }
}

/// Reads a text of where an animal was found.
#[must_use]
pub fn parse_found_location(text: &str, gazetteer: &Gazetteer) -> (res: ParsedLocation)
    ensures
        res.deep_view() == parsed_location(text@, gazetteer@),
{
    let trimmed = text.trim();
    let zip = last_five_digit_token(trimmed);
    if let Some(z) = &zip {
        if let Some(entry) = gazetteer.lookup_zip(z) {
            return ParsedLocation::Resolved(entry.to_shelter_location());
        }
    }
    let comma = read_comma_form(trimmed);
    if let Some(entry) = find_form(&comma, gazetteer) {
        return ParsedLocation::Resolved(entry.to_shelter_location());
    }
    let space = read_space_form(trimmed);
    if let Some(entry) = find_form(&space, gazetteer) {
        return ParsedLocation::Resolved(entry.to_shelter_location());
    }
    if zip.is_some() || comma.is_some() || space.is_some() {
        ParsedLocation::NotInGazetteer
    } else {
        ParsedLocation::Unrecognised
    }
}

// ---------------------------------------------------------------------------
// Laws
// ---------------------------------------------------------------------------

/// Nothing is guessed: a text without a recognized form is not resolved, and a
/// location is that of an entry of the gazetteer.
pub proof fn nothing_is_guessed(s: Seq<char>, entries: Seq<EntryView>)
    ensures
        parsed_location(s, entries) == ParsedView::Unrecognised <==> !is_recognized(
            text::trimmed(s),
        ),
        parsed_location(s, entries) is Resolved ==> exists|i: int|
            0 <= i < entries.len() && parsed_location(s, entries) == ParsedView::Resolved(
                gazetteer::place_of(#[trigger] entries[i]),
            ),
{
    let t = text::trimmed(s);
    if let Some(zip) = last_five_digits(text::words_of(t)) {
        gazetteer::lookups_find_entries(entries, zip, zip);
    }
    if let Some((city, state)) = comma_form(t) {
        gazetteer::lookups_find_entries(entries, text::lowercase(city), text::uppercase(state));
    }
    if let Some((city, state)) = space_form(t) {
        gazetteer::lookups_find_entries(entries, text::lowercase(city), text::uppercase(state));
    }
    if let Some(e) = entry_for(t, entries) {
        let i = choose|i: int| 0 <= i < entries.len() && entries[i] == e;
        assert(gazetteer::place_of(entries[i]) == gazetteer::place_of(e));
    }
}

/// A location that was read is coarse: its coordinates are kept to two decimal
/// places.
pub proof fn locations_are_coarse(s: Seq<char>, entries: Seq<EntryView>)
    ensures
        parsed_location(s, entries) matches ParsedView::Resolved(loc) ==> loc.precision
            == gazetteer::HOMEWARD_PRECISION == 2,
{
}

/// Blank text has no recognized form.
pub proof fn blank_text_is_unrecognized(s: Seq<char>, entries: Seq<EntryView>)
    requires
        text::trimmed(s).len() == 0,
    ensures
        parsed_location(s, entries) == ParsedView::Unrecognised,
{
    let t = text::trimmed(s);
    assert(text::words_of(t).len() == 0);
    assert(text::split_on(t, ',').len() == 1);
}

/// Whether a word of five digits stands from `a` to `b`.
pub open spec fn five_digits_at(s: Seq<char>, a: int, b: int) -> bool {
    &&& text::word_at(s, a, b)
    &&& b - a == 5
    &&& forall|i: int| a <= i < b ==> '0' <= #[trigger] s[i] <= '9'
}

/// Whether the last word of five digits stands from `a` to `b`.
pub open spec fn last_five_digits_at(s: Seq<char>, a: int, b: int) -> bool {
    five_digits_at(s, a, b) && forall|c: int, d: int| #[trigger] five_digits_at(s, c, d) ==> c <= a
}

/// Whether a word of five digits stands from `a` to `b`, with whitespace behind it.
spec fn closed_at(s: Seq<char>, a: int, b: int) -> bool {
    five_digits_at(s, a, b) && b < s.len()
}

/// The word that is being read at the end of a text.
proof fn lemma_open_word(s: Seq<char>)
    ensures
        ({
            let word = text::word_state(s).1;
            let p = s.len() - word.len();
            &&& 0 <= p <= s.len()
            &&& word == s.skip(p)
            &&& forall|i: int| p <= i < s.len() ==> !text::is_white(#[trigger] s[i])
            &&& p > 0 ==> text::is_white(s[p - 1])
        }),
    decreases s.len(),
{
    if s.len() > 0 {
        let front = s.drop_last();
        lemma_open_word(front);
        let word = text::word_state(front).1;
        let p = front.len() - word.len();
        if text::is_white(s.last()) {
            assert(text::word_state(s).1 =~= s.skip(s.len() as int));
        } else {
            assert(text::word_state(s).1 =~= s.skip(p));
            assert forall|i: int| p <= i < s.len() implies !text::is_white(#[trigger] s[i]) by {
                if i < front.len() {
                    assert(front[i] == s[i]);
                }
            }
            if p > 0 {
                assert(front[p - 1] == s[p - 1]);
            }
        }
    } else {
        assert(text::word_state(s).1 =~= s.skip(0));
    }
}

proof fn lemma_digits_of_word(s: Seq<char>, a: int, b: int)
    requires
        text::word_at(s, a, b),
    ensures
        five_digits_at(s, a, b) == is_five_digits(s.subrange(a, b)),
{
    let w = s.subrange(a, b);
    if five_digits_at(s, a, b) {
        assert forall|i: int| 0 <= i < w.len() implies text::is_digit(#[trigger] w[i]) by {
            assert(w[i] == s[a + i]);
        }
    }
    if is_five_digits(w) {
        assert forall|i: int| a <= i < b implies '0' <= #[trigger] s[i] <= '9' by {
            assert(w[i - a] == s[i]);
            assert(text::is_digit(w[i - a]));
        }
    }
}

proof fn lemma_closed_in_front(s: Seq<char>, a: int, b: int)
    requires
        s.len() > 0,
        b < s.len() - 1,
    ensures
        closed_at(s, a, b) == closed_at(s.drop_last(), a, b),
{
    let front = s.drop_last();
    if closed_at(s, a, b) {
        assert forall|i: int| a <= i < b implies !text::is_white(#[trigger] front[i]) && '0'
            <= front[i] <= '9' by {
            assert(front[i] == s[i]);
        }
    }
    if closed_at(front, a, b) {
        assert forall|i: int| a <= i < b implies !text::is_white(#[trigger] s[i]) && '0' <= s[i]
            <= '9' by {
            assert(front[i] == s[i]);
        }
    }
}

/// Among the words that are closed by whitespace, the last of five digits.
proof fn lemma_last_closed(s: Seq<char>, a: int, b: int)
    ensures
        closed_at(s, a, b) && (forall|c: int, d: int| #[trigger] closed_at(s, c, d) ==> c <= a)
            ==> last_five_digits(text::word_state(s).0) == Some(s.subrange(a, b)),
        (forall|c: int, d: int| !#[trigger] closed_at(s, c, d)) ==> last_five_digits(
            text::word_state(s).0,
        ) is None,
    decreases s.len(),
{
    if s.len() > 0 {
        let front = s.drop_last();
        let (done, word) = text::word_state(front);
        let n = front.len() as int;
        let p = n - word.len();
        lemma_open_word(front);
        lemma_last_closed(front, a, b);
        let closes = text::is_white(s.last()) && word.len() > 0;
        // A word that the last character closes is the one that was being read.
        assert forall|c: int| #[trigger] closed_at(s, c, n) implies closes && c == p by {
            assert(!text::is_white(s[n - 1]));
            assert(front[n - 1] == s[n - 1]);
            if c < p {
                assert(text::is_white(front[p - 1]));
                assert(front[p - 1] == s[p - 1]);
            }
            if c > p {
                assert(front[c - 1] == s[c - 1]);
            }
        }
        if closes {
            assert(word =~= s.subrange(p, n));
            assert(text::word_at(s, p, n)) by {
                assert forall|i: int| p <= i < n implies !text::is_white(#[trigger] s[i]) by {
                    assert(front[i] == s[i]);
                }
                if p > 0 {
                    assert(front[p - 1] == s[p - 1]);
                }
            }
            lemma_digits_of_word(s, p, n);
            assert(done.push(word).drop_last() =~= done);
        }
        if closed_at(s, a, b) && (forall|c: int, d: int| #[trigger] closed_at(s, c, d) ==> c <= a) {
            if b == n {
                assert(closed_at(s, a, n));
                assert(s.subrange(a, b) =~= word);
            } else {
                lemma_closed_in_front(s, a, b);
                assert forall|c: int, d: int| #[trigger] closed_at(front, c, d) implies c <= a by {
                    lemma_closed_in_front(s, c, d);
                    assert(closed_at(s, c, d));
                }
                assert(front.subrange(a, b) =~= s.subrange(a, b));
                if closes && is_five_digits(word) {
                    assert(closed_at(s, p, n));
                    assert(p <= a);
                    assert(text::is_white(s[b]));
                    assert(front[b] == s[b]);
                }
            }
        }
        if forall|c: int, d: int| !#[trigger] closed_at(s, c, d) {
            assert forall|c: int, d: int| !#[trigger] closed_at(front, c, d) by {
                if closed_at(front, c, d) {
                    lemma_closed_in_front(s, c, d);
                    assert(closed_at(s, c, d));
                }
            }
            if closes {
                assert(!closed_at(s, p, n));
            }
        }
    }
}

/// The last word of five digits is found wherever it stands, and nothing is where
/// there is none.
proof fn lemma_last_found(s: Seq<char>, a: int, b: int)
    ensures
        last_five_digits_at(s, a, b) ==> last_five_digits(text::words_of(s)) == Some(
            s.subrange(a, b),
        ),
        (forall|c: int, d: int| !#[trigger] five_digits_at(s, c, d)) ==> last_five_digits(
            text::words_of(s),
        ) is None,
{
    let (done, word) = text::word_state(s);
    let n = s.len() as int;
    let p = n - word.len();
    lemma_open_word(s);
    lemma_last_closed(s, a, b);
    if word.len() > 0 {
        assert(text::word_at(s, p, n));
        assert(word =~= s.subrange(p, n));
        lemma_digits_of_word(s, p, n);
        assert(done.push(word).drop_last() =~= done);
    }
    assert forall|c: int| #[trigger] five_digits_at(s, c, n) implies word.len() > 0 && c == p by {
        assert(!text::is_white(s[n - 1]));
        if c < p {
            assert(text::is_white(s[p - 1]));
        }
    }
    if last_five_digits_at(s, a, b) {
        if b == n {
            assert(five_digits_at(s, a, n));
        } else {
            assert(closed_at(s, a, b));
            assert forall|c: int, d: int| #[trigger] closed_at(s, c, d) implies c <= a by {
                assert(five_digits_at(s, c, d));
            }
            if word.len() > 0 && is_five_digits(word) {
                assert(five_digits_at(s, p, n));
                assert(p <= a);
                assert(text::is_white(s[b]));
            }
        }
    }
    if forall|c: int, d: int| !#[trigger] five_digits_at(s, c, d) {
        assert forall|c: int, d: int| !#[trigger] closed_at(s, c, d) by {
            assert(!five_digits_at(s, c, d));
        }
        assert(!five_digits_at(s, p, n));
    }
}

/// Trimming moves words and changes none.
proof fn lemma_words_move(s: Seq<char>, x: int, y: int, a: int, b: int)
    requires
        0 <= x <= y <= s.len(),
        forall|i: int| 0 <= i < x ==> text::is_white(#[trigger] s[i]),
        forall|i: int| y <= i < s.len() ==> text::is_white(#[trigger] s[i]),
    ensures
        five_digits_at(s, a, b) ==> x <= a && b <= y && five_digits_at(s.subrange(x, y), a - x, b - x),
        five_digits_at(s.subrange(x, y), a - x, b - x) ==> five_digits_at(s, a, b),
{
    let t = s.subrange(x, y);
    if five_digits_at(s, a, b) {
        assert(!text::is_white(s[a]) && !text::is_white(s[b - 1]));
        assert(x <= a && b <= y);
        assert forall|i: int| a - x <= i < b - x implies !text::is_white(#[trigger] t[i]) && '0'
            <= t[i] <= '9' by {
            assert(t[i] == s[x + i]);
        }
        if a - x > 0 {
            assert(t[a - x - 1] == s[a - 1]);
        }
        if b - x < t.len() {
            assert(t[b - x] == s[b]);
        }
    }
    if five_digits_at(t, a - x, b - x) {
        assert forall|i: int| a <= i < b implies !text::is_white(#[trigger] s[i]) && '0' <= s[i]
            <= '9' by {
            assert(t[i - x] == s[i]);
        }
        if a > x {
            assert(t[a - x - 1] == s[a - 1]);
        }
        if b < y {
            assert(t[b - x] == s[b]);
        }
    }
}

proof fn lemma_trimmed_last(s: Seq<char>, a: int, b: int)
    ensures
        last_five_digits_at(s, a, b) ==> last_five_digits(text::words_of(text::trimmed(s))) == Some(
            s.subrange(a, b),
        ),
        (forall|c: int, d: int| !#[trigger] five_digits_at(s, c, d)) ==> last_five_digits(
            text::words_of(text::trimmed(s)),
        ) is None,
{
    let (x, y) = text::trimming_drops_whitespace(s);
    let t = text::trimmed(s);
    lemma_last_found(t, a - x, b - x);
    if last_five_digits_at(s, a, b) {
        lemma_words_move(s, x, y, a, b);
        assert forall|c: int, d: int| #[trigger] five_digits_at(t, c, d) implies c <= a - x by {
            lemma_words_move(s, x, y, c + x, d + x);
            assert(five_digits_at(s, c + x, d + x));
        }
        assert(last_five_digits_at(t, a - x, b - x));
        assert(t.subrange(a - x, b - x) =~= s.subrange(a, b));
    }
    if forall|c: int, d: int| !#[trigger] five_digits_at(s, c, d) {
        assert forall|c: int, d: int| !#[trigger] five_digits_at(t, c, d) by {
            lemma_words_move(s, x, y, c + x, d + x);
            assert(!five_digits_at(s, c + x, d + x));
        }
    }
}

/// A text whose last word of five digits is the ZIP code of an entry is read as the
/// place of the last such entry, whatever stands before and behind that word.
pub proof fn zip_codes_are_found_in_any_text(
    s: Seq<char>,
    a: int,
    b: int,
    entries: Seq<EntryView>,
    k: int,
)
    requires
        last_five_digits_at(s, a, b),
        0 <= k < entries.len(),
        entries[k].zip == Some(s.subrange(a, b)),
        forall|j: int|
            k < j < entries.len() ==> (#[trigger] entries[j]).zip != Some(s.subrange(a, b)),
    ensures
        parsed_location(s, entries) == ParsedView::Resolved(gazetteer::place_of(entries[k])),
{
    lemma_trimmed_last(s, a, b);
    gazetteer::zip_codes_find_the_last_entry(entries, s.subrange(a, b), k);
}

/// Whether no word of five digits of a text is the ZIP code of an entry.
pub open spec fn no_zip_code(s: Seq<char>, entries: Seq<EntryView>) -> bool {
    forall|a: int, b: int, j: int|
        #![trigger five_digits_at(s, a, b), entries[j]]
        five_digits_at(s, a, b) && 0 <= j < entries.len() ==> entries[j].zip != Some(
            s.subrange(a, b),
        )
}

proof fn lemma_no_zip(s: Seq<char>, entries: Seq<EntryView>)
    requires
        no_zip_code(s, entries),
    ensures
        by_zip(text::trimmed(s), entries) is None,
{
    lemma_trimmed_last(s, 0, 0);
    if exists|c: int, d: int| #[trigger] five_digits_at(s, c, d) {
        lemma_some_last(s, s.len() as int);
        let (a, b) = choose|a: int, b: int| #[trigger] last_five_digits_at(s, a, b);
        lemma_trimmed_last(s, a, b);
        assert(five_digits_at(s, a, b));
        gazetteer::strangers_are_not_found(entries, s.subrange(a, b), s.subrange(a, b));
    }
}

/// Among the words of five digits that begin before a place, one is the last.
proof fn lemma_some_last(s: Seq<char>, n: int)
    requires
        0 <= n <= s.len(),
        exists|c: int, d: int| #[trigger] five_digits_at(s, c, d),
        forall|c: int, d: int| #[trigger] five_digits_at(s, c, d) ==> c < n,
    ensures
        exists|a: int, b: int| #[trigger] last_five_digits_at(s, a, b),
    decreases n,
{
    let (c, d) = choose|c: int, d: int| #[trigger] five_digits_at(s, c, d);
    if exists|e: int| #[trigger] five_digits_at(s, n - 1, e) {
        let e = choose|e: int| #[trigger] five_digits_at(s, n - 1, e);
        assert(last_five_digits_at(s, n - 1, e));
    } else {
        assert forall|x: int, y: int| #[trigger] five_digits_at(s, x, y) implies x < n - 1 by {
            if x == n - 1 {
                assert(five_digits_at(s, n - 1, y));
            }
        }
        assert(five_digits_at(s, c, d));
        lemma_some_last(s, n - 1);
    }
}

/// A text that ends in a city, a comma and a state is read as the place of the last
/// entry of that name and state, in whatever case they are written and whatever
/// stands before the city, unless a ZIP code in it leads elsewhere.
pub proof fn cities_are_found_before_a_comma(
    before: Seq<char>,
    city: Seq<char>,
    state: Seq<char>,
    entries: Seq<EntryView>,
    k: int,
)
    requires
        before.len() > 0 ==> before.last() == ',' && !text::is_white(before[0]),
        city.len() > 0 && !text::is_white(city[0]),
        !city.contains(','),
        !state.contains(','),
        state.len() > 0 && !text::is_white(state.last()),
        is_state(text::trimmed(state)),
        no_zip_code(before + city.push(',') + state, entries),
        0 <= k < entries.len(),
        entries[k].name_lower == text::lowercase(text::trimmed(city)),
        entries[k].state == text::uppercase(text::trimmed(state)),
        forall|j: int|
            k < j < entries.len() ==> (#[trigger] entries[j]).name_lower != text::lowercase(
                text::trimmed(city),
            ) || entries[j].state != text::uppercase(text::trimmed(state)),
    ensures
        parsed_location(before + city.push(',') + state, entries) == ParsedView::Resolved(
            gazetteer::place_of(entries[k]),
        ),
{
    let s = before + city.push(',') + state;
    let front = before + city;
    assert(s =~= front.push(',') + state);
    assert(s[0] == (if before.len() > 0 {
        before[0]
    } else {
        city[0]
    }));
    assert(s.last() == state.last());
    text::trimming_keeps_the_rest(s);
    lemma_no_zip(s, entries);
    text::next_part(front, state, ',');
    if before.len() > 0 {
        let head = before.drop_last();
        assert(front =~= head.push(',') + city);
        text::next_part(head, city, ',');
    } else {
        assert(front =~= city);
        text::only_part(city, ',');
    }
    let parts = text::split_on(s, ',');
    assert(parts.last() == state);
    assert(parts[parts.len() - 2] == city);
    gazetteer::names_find_the_last_entry(
        entries,
        text::trimmed(city),
        text::trimmed(state),
        k,
    );
}

/// Words with one space between them.
pub open spec fn spaced(words: Seq<Seq<char>>) -> Seq<char>
    decreases words.len(),
{
    if words.len() == 0 {
        Seq::empty()
    } else if words.len() == 1 {
        words[0]
    } else {
        spaced(words.drop_last()) + seq![' '] + words.last()
    }
}

proof fn lemma_spaced_words(words: Seq<Seq<char>>)
    requires
        words.len() > 0,
        forall|i: int| 0 <= i < words.len() ==> text::is_word(#[trigger] words[i]),
    ensures
        text::word_state(spaced(words) + " "@) == (words, Seq::<char>::empty()),
        text::words_of(spaced(words)) == words,
        text::joined(words, " "@) == spaced(words),
        spaced(words).len() > 0,
        !text::is_white(spaced(words)[0]),
    decreases words.len(),
{
    reveal_strlit(" ");
    assert(" "@ =~= seq![' ']);
    let empty = Seq::<char>::empty();
    if words.len() == 1 {
        text::next_word(empty, words[0]);
        assert(empty + words[0] =~= words[0]);
        assert(Seq::<Seq<char>>::empty().push(words[0]) =~= words);
    } else {
        let front = words.drop_last();
        assert forall|i: int| 0 <= i < front.len() implies text::is_word(#[trigger] front[i]) by {
            assert(front[i] == words[i]);
        }
        lemma_spaced_words(front);
        let before = spaced(front) + " "@;
        assert(text::is_word(words[words.len() - 1]));
        text::next_word(before, words.last());
        assert(front.push(words.last()) =~= words);
        assert(spaced(words)[0] == spaced(front)[0]);
    }
}

/// A text of words of which the last is a state and the others name a city, without
/// a comma, is read as the place of the last entry of that name and state, in
/// whatever case they are written, unless a ZIP code in it leads elsewhere.
pub proof fn cities_are_found_before_a_state(
    city: Seq<Seq<char>>,
    state: Seq<char>,
    entries: Seq<EntryView>,
    k: int,
)
    requires
        city.len() > 0,
        forall|i: int| 0 <= i < city.len() ==> text::is_word(#[trigger] city[i]),
        text::is_word(state),
        !spaced(city.push(state)).contains(','),
        is_state(state),
        no_zip_code(spaced(city.push(state)), entries),
        0 <= k < entries.len(),
        entries[k].name_lower == text::lowercase(spaced(city)),
        entries[k].state == text::uppercase(state),
        forall|j: int|
            k < j < entries.len() ==> (#[trigger] entries[j]).name_lower != text::lowercase(
                spaced(city),
            ) || entries[j].state != text::uppercase(state),
    ensures
        parsed_location(spaced(city.push(state)), entries) == ParsedView::Resolved(
            gazetteer::place_of(entries[k]),
        ),
{
    let words = city.push(state);
    let s = spaced(words);
    assert(words.drop_last() =~= city);
    lemma_spaced_words(words);
    lemma_spaced_words(city);
    assert(s.last() == state.last());
    text::trimming_keeps_the_rest(s);
    lemma_no_zip(s, entries);
    assert(comma_form(s) is None) by {
        text::only_part(s, ',');
    }
    gazetteer::names_find_the_last_entry(entries, spaced(city), state, k);
}

/// Whitespace around a text makes no difference.
pub proof fn surrounding_whitespace_is_ignored(s: Seq<char>, entries: Seq<EntryView>)
    ensures
        parsed_location(text::trimmed(s), entries) == parsed_location(s, entries),
{
    text::trimming_is_idempotent(s);
}

/// A text is not in the gazetteer only where no entry has its ZIP code, and no
/// entry has the city and the state that it ends in.
pub proof fn nothing_known_is_missed(s: Seq<char>, a: int, b: int, entries: Seq<EntryView>, j: int)
    requires
        !(parsed_location(s, entries) is Resolved),
        0 <= j < entries.len(),
    ensures
        last_five_digits_at(s, a, b) ==> entries[j].zip != Some(s.subrange(a, b)),
        parsed_location(s, entries) is Unrecognised ==> !five_digits_at(s, a, b),
{
    lemma_trimmed_last(s, a, b);
    if last_five_digits_at(s, a, b) && entries[j].zip == Some(s.subrange(a, b)) {
        lemma_zip_hit(entries, s.subrange(a, b), j);
    }
    if parsed_location(s, entries) is Unrecognised && five_digits_at(s, a, b) {
        lemma_some_last(s, s.len() as int);
        let (c, d) = choose|c: int, d: int| #[trigger] last_five_digits_at(s, c, d);
        lemma_trimmed_last(s, c, d);
    }
}

proof fn lemma_zip_hit(entries: Seq<EntryView>, zip: Seq<char>, j: int)
    requires
        0 <= j < entries.len(),
        entries[j].zip == Some(zip),
    ensures
        gazetteer::entry_of_zip(entries, zip) is Some,
    decreases entries.len(),
{
    if j < entries.len() - 1 {
        lemma_zip_hit(entries.drop_last(), zip, j);
    }
}

/// The abbreviations of the fifty states, the District of Columbia and the five
/// territories, two letters each.
pub open spec fn postal_codes() -> Seq<char> {
    "ALAKAZARCACOCTDEFLGAHIIDILINIAKSKYLAMEMDMAMIMNMSMOMTNENVNHNJNMNYNCNDOHOKORPARISCSDTNTXUTVTVAWAWVWIWYDCASGUMPPRVI"@
}

/// A text is a state exactly where it is one of the postal abbreviations, in
/// whatever case it is written.
pub proof fn states_are_postal_codes(s: Seq<char>)
    ensures
        is_state(s) <==> exists|i: int|
            0 <= i < 56 && text::uppercase(s) == #[trigger] postal_codes().subrange(
                2 * i,
                2 * i + 2,
            ),
{
    lemma_postal_codes();
    if is_state(s) {
        let i = choose|i: int| 0 <= i < 56 && (#[trigger] STATES@[i])@ == text::uppercase(s);
        assert(text::uppercase(s) == postal_codes().subrange(2 * i, 2 * i + 2));
    }
    if exists|i: int|
        0 <= i < 56 && text::uppercase(s) == #[trigger] postal_codes().subrange(2 * i, 2 * i + 2) {
        let i = choose|i: int|
            0 <= i < 56 && text::uppercase(s) == #[trigger] postal_codes().subrange(
                2 * i,
                2 * i + 2,
            );
        assert(STATES@[i]@ == text::uppercase(s));
    }
}

proof fn lemma_postal_codes()
    ensures
        forall|i: int|
            0 <= i < 56 ==> (#[trigger] STATES@[i])@ == postal_codes().subrange(2 * i, 2 * i + 2),
{
    let codes = postal_codes();
    reveal_strlit("ALAKAZARCACOCTDEFLGAHIIDILINIAKSKYLAMEMDMAMIMNMSMOMTNENVNHNJNMNYNCNDOHOKORPARISCSDTNTXUTVTVAWAWVWIWYDCASGUMPPRVI");
    reveal_strlit("AL");
    reveal_strlit("AK");
    reveal_strlit("AZ");
    reveal_strlit("AR");
    reveal_strlit("CA");
    reveal_strlit("CO");
    reveal_strlit("CT");
    reveal_strlit("DE");
    reveal_strlit("FL");
    reveal_strlit("GA");
    reveal_strlit("HI");
    reveal_strlit("ID");
    reveal_strlit("IL");
    reveal_strlit("IN");
    reveal_strlit("IA");
    reveal_strlit("KS");
    reveal_strlit("KY");
    reveal_strlit("LA");
    reveal_strlit("ME");
    reveal_strlit("MD");
    reveal_strlit("MA");
    reveal_strlit("MI");
    reveal_strlit("MN");
    reveal_strlit("MS");
    reveal_strlit("MO");
    reveal_strlit("MT");
    reveal_strlit("NE");
    reveal_strlit("NV");
    reveal_strlit("NH");
    reveal_strlit("NJ");
    reveal_strlit("NM");
    reveal_strlit("NY");
    reveal_strlit("NC");
    reveal_strlit("ND");
    reveal_strlit("OH");
    reveal_strlit("OK");
    reveal_strlit("OR");
    reveal_strlit("PA");
    reveal_strlit("RI");
    reveal_strlit("SC");
    reveal_strlit("SD");
    reveal_strlit("TN");
    reveal_strlit("TX");
    reveal_strlit("UT");
    reveal_strlit("VT");
    reveal_strlit("VA");
    reveal_strlit("WA");
    reveal_strlit("WV");
    reveal_strlit("WI");
    reveal_strlit("WY");
    reveal_strlit("DC");
    reveal_strlit("AS");
    reveal_strlit("GU");
    reveal_strlit("MP");
    reveal_strlit("PR");
    reveal_strlit("VI");
    assert(codes.subrange(0, 2) =~= "AL"@);
    assert(codes.subrange(2, 4) =~= "AK"@);
    assert(codes.subrange(4, 6) =~= "AZ"@);
    assert(codes.subrange(6, 8) =~= "AR"@);
    assert(codes.subrange(8, 10) =~= "CA"@);
    assert(codes.subrange(10, 12) =~= "CO"@);
    assert(codes.subrange(12, 14) =~= "CT"@);
    assert(codes.subrange(14, 16) =~= "DE"@);
    assert(codes.subrange(16, 18) =~= "FL"@);
    assert(codes.subrange(18, 20) =~= "GA"@);
    assert(codes.subrange(20, 22) =~= "HI"@);
    assert(codes.subrange(22, 24) =~= "ID"@);
    assert(codes.subrange(24, 26) =~= "IL"@);
    assert(codes.subrange(26, 28) =~= "IN"@);
    assert(codes.subrange(28, 30) =~= "IA"@);
    assert(codes.subrange(30, 32) =~= "KS"@);
    assert(codes.subrange(32, 34) =~= "KY"@);
    assert(codes.subrange(34, 36) =~= "LA"@);
    assert(codes.subrange(36, 38) =~= "ME"@);
    assert(codes.subrange(38, 40) =~= "MD"@);
    assert(codes.subrange(40, 42) =~= "MA"@);
    assert(codes.subrange(42, 44) =~= "MI"@);
    assert(codes.subrange(44, 46) =~= "MN"@);
    assert(codes.subrange(46, 48) =~= "MS"@);
    assert(codes.subrange(48, 50) =~= "MO"@);
    assert(codes.subrange(50, 52) =~= "MT"@);
    assert(codes.subrange(52, 54) =~= "NE"@);
    assert(codes.subrange(54, 56) =~= "NV"@);
    assert(codes.subrange(56, 58) =~= "NH"@);
    assert(codes.subrange(58, 60) =~= "NJ"@);
    assert(codes.subrange(60, 62) =~= "NM"@);
    assert(codes.subrange(62, 64) =~= "NY"@);
    assert(codes.subrange(64, 66) =~= "NC"@);
    assert(codes.subrange(66, 68) =~= "ND"@);
    assert(codes.subrange(68, 70) =~= "OH"@);
    assert(codes.subrange(70, 72) =~= "OK"@);
    assert(codes.subrange(72, 74) =~= "OR"@);
    assert(codes.subrange(74, 76) =~= "PA"@);
    assert(codes.subrange(76, 78) =~= "RI"@);
    assert(codes.subrange(78, 80) =~= "SC"@);
    assert(codes.subrange(80, 82) =~= "SD"@);
    assert(codes.subrange(82, 84) =~= "TN"@);
    assert(codes.subrange(84, 86) =~= "TX"@);
    assert(codes.subrange(86, 88) =~= "UT"@);
    assert(codes.subrange(88, 90) =~= "VT"@);
    assert(codes.subrange(90, 92) =~= "VA"@);
    assert(codes.subrange(92, 94) =~= "WA"@);
    assert(codes.subrange(94, 96) =~= "WV"@);
    assert(codes.subrange(96, 98) =~= "WI"@);
    assert(codes.subrange(98, 100) =~= "WY"@);
    assert(codes.subrange(100, 102) =~= "DC"@);
    assert(codes.subrange(102, 104) =~= "AS"@);
    assert(codes.subrange(104, 106) =~= "GU"@);
    assert(codes.subrange(106, 108) =~= "MP"@);
    assert(codes.subrange(108, 110) =~= "PR"@);
    assert(codes.subrange(110, 112) =~= "VI"@);
}

} // verus!
