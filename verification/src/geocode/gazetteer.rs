//! The gazetteer: places and ZIP codes with their centers.
//!
//! A gazetteer is comma-separated text, one place in a line: its kind (`Z` for a
//! ZIP code), name, state, latitude, longitude and, optionally, a ZIP code.

use vstd::prelude::*;

use crate::decimal;
use crate::geocode::error::{GeocodeError, GeocodeErrorView};
use crate::outcome;
use crate::schema::{LocationView, ShelterLocation};
use crate::text;

verus! {

/// How many decimal places of a coordinate are kept (about 1.1 km).
pub const HOMEWARD_PRECISION: u8 = 2;

/// How a location was filled in.
#[derive(Debug, Clone, Copy, PartialEq, Eq, Structural)]
pub enum LocationSource {
    /// Reported by the shelter directly.
    Shelter,
    /// Derived from the text of where the animal was found.
    FoundText,
}

/// A single entry of the gazetteer.
#[derive(Debug, Clone, PartialEq, Eq)]
pub struct GazetteerEntry {
    /// Place name in lower case.
    pub name_lower: String,
    /// State abbreviation in upper case.
    pub state: String,
    /// Latitude of the center, as the gazetteer writes it.
    pub lat: String,
    /// Longitude of the center, as the gazetteer writes it.
    pub lon: String,
    /// ZIP code, if the entry has one.
    pub zip: Option<String>,
}

/// The model of a [`GazetteerEntry`].
pub struct EntryView {
    /// Place name in lower case.
    pub name_lower: Seq<char>,
    /// State abbreviation in upper case.
    pub state: Seq<char>,
    /// Latitude of the center.
    pub lat: Seq<char>,
    /// Longitude of the center.
    pub lon: Seq<char>,
    /// ZIP code.
    pub zip: Option<Seq<char>>,
}

impl DeepView for GazetteerEntry {
    type V = EntryView;

    open spec fn deep_view(&self) -> EntryView {
        EntryView {
            name_lower: self.name_lower@,
            state: self.state@,
            lat: self.lat@,
            lon: self.lon@,
            zip: self.zip.deep_view(),
        }
    }
}

/// The coarse location of an entry. A coordinate that is not finite, or does not
/// fit, is left out.
pub open spec fn place_of(entry: EntryView) -> LocationView {
    LocationView {
        lat: decimal::in_units(entry.lat, HOMEWARD_PRECISION as nat),
        lon: decimal::in_units(entry.lon, HOMEWARD_PRECISION as nat),
        precision: HOMEWARD_PRECISION,
        city_county: entry.name_lower,
        state: Some(entry.state),
    }
}

impl GazetteerEntry {
    /// The coarse location of this entry, at the standard precision.
    #[must_use]
    pub fn to_shelter_location(&self) -> (res: ShelterLocation)
        ensures
            res.deep_view() == place_of(self.deep_view()),
    {
        ShelterLocation::new(
            decimal::round_number(&self.lat, HOMEWARD_PRECISION),
            decimal::round_number(&self.lon, HOMEWARD_PRECISION),
            HOMEWARD_PRECISION,
            self.name_lower.clone(),
            Some(self.state.clone()),
        )
    }
}

// ---------------------------------------------------------------------------
// Lookup
// ---------------------------------------------------------------------------

/// The last entry of a name in lower case and a state in upper case.
pub open spec fn entry_at(entries: Seq<EntryView>, name: Seq<char>, state: Seq<char>) -> Option<
    EntryView,
>
    decreases entries.len(),
{
    if entries.len() == 0 {
        None
    } else if entries.last().name_lower == name && entries.last().state == state {
        Some(entries.last())
    } else {
        entry_at(entries.drop_last(), name, state)
    }
}

/// The last entry of a name and a state, in whatever case they are written.
pub open spec fn entry_named(entries: Seq<EntryView>, name: Seq<char>, state: Seq<char>) -> Option<
    EntryView,
> {
    entry_at(entries, text::lowercase(name), text::uppercase(state))
}

/// The last entry of a ZIP code.
pub open spec fn entry_of_zip(entries: Seq<EntryView>, zip: Seq<char>) -> Option<EntryView>
    decreases entries.len(),
{
    if entries.len() == 0 {
        None
    } else if entries.last().zip == Some(zip) {
        Some(entries.last())
    } else {
        entry_of_zip(entries.drop_last(), zip)
    }
}

/// The entry that a lookup found.
pub open spec fn found(res: Option<&GazetteerEntry>) -> Option<EntryView> {
    match res {
        Some(e) => Some(e.deep_view()),
        None => None,
    }
}

/// The entries of a gazetteer. Of several entries with the same name and state,
/// or the same ZIP code, the last counts.
#[derive(Debug, Clone, PartialEq, Eq)]
pub struct Gazetteer {
    entries: Vec<GazetteerEntry>,
}

impl View for Gazetteer {
    type V = Seq<EntryView>;

    closed spec fn view(&self) -> Seq<EntryView> {
        self.entries.deep_view()
    }
}

impl Default for Gazetteer {
    fn default() -> (res: Self)
        ensures
            res@.len() == 0,
    {
        Gazetteer { entries: Vec::new() }
    }
}

// ---------------------------------------------------------------------------
// Rows
// ---------------------------------------------------------------------------

/// A coordinate column: without spaces around it, and with a plain minus sign in
/// place of the typographic one.
pub open spec fn coordinate_text(column: Seq<char>) -> Seq<char> {
    text::replaced_all(text::trimmed(column), '\u{2212}', '-')
}

/// The ZIP code column: what stands behind the fifth comma, if anything does.
pub open spec fn zip_column(columns: Seq<Seq<char>>) -> Option<Seq<char>> {
    let zip = text::trimmed(text::joined(columns.skip(5), ","@));
    if columns.len() < 6 || zip.len() == 0 {
        None
    } else {
        Some(zip)
    }
}

/// The fault of a row.
pub open spec fn bad_row(line: nat, reason: Seq<char>) -> Result<EntryView, GeocodeErrorView> {
    Err(GeocodeErrorView::MalformedRow { line, reason })
}

/// The entry of a row of columns.
pub open spec fn entry_of(columns: Seq<Seq<char>>, line: nat) -> Result<
    EntryView,
    GeocodeErrorView,
> {
    let name = text::trimmed(columns[1]);
    let lat = coordinate_text(columns[3]);
    let lon = coordinate_text(columns[4]);
    if columns.len() < 5 {
        bad_row(line, "expected \u{2265}5 columns, got "@ + text::decimal(columns.len()))
    } else if decimal::number_of(lat) is None {
        bad_row(line, "invalid lat "@ + text::quoted(lat))
    } else if decimal::number_of(lon) is None {
        bad_row(line, "invalid lon "@ + text::quoted(lon))
    } else {
        Ok(
            EntryView {
                name_lower: text::lowercase(name),
                state: text::uppercase(text::trimmed(columns[2])),
                lat,
                lon,
                zip: if text::trimmed(columns[0]) == "Z"@ {
                    Some(name)
                } else {
                    zip_column(columns)
                },
            },
        )
    }
}

/// Whether a line without spaces around it holds no row: it is blank, or a
/// comment.
pub open spec fn is_skipped(line: Seq<char>) -> bool {
    line.len() == 0 || line[0] == '#'
}

/// The entries of a row of lines, or the fault of the first bad one.
pub open spec fn entries_of(lines: Seq<Seq<char>>) -> Result<Seq<EntryView>, GeocodeErrorView>
    decreases lines.len(),
{
    if lines.len() == 0 {
        Ok(Seq::empty())
    } else {
        let line = text::trimmed(lines.last());
        match entries_of(lines.drop_last()) {
            Err(e) => Err(e),
            Ok(before) => if is_skipped(line) {
                Ok(before)
            } else {
                match entry_of(text::split_on(line, ','), lines.len()) {
                    Ok(entry) => Ok(before.push(entry)),
                    Err(e) => Err(e),
                }
            },
        }
    }
}

/// The gazetteer that was read, or the error.
pub open spec fn gazetteer_or(res: Result<Gazetteer, GeocodeError>) -> Result<
    Seq<EntryView>,
    GeocodeErrorView,
> {
    match res {
        Ok(gz) => Ok(gz@),
        Err(e) => Err(e.deep_view()),
    }
}

fn read_zip_column(columns: &Vec<String>) -> (res: Option<String>)
    ensures
        res.deep_view() == zip_column(columns.deep_view()),
{
    if columns.len() < 6 {
        return None;
    }
    let ghost all = columns.deep_view();
    let mut rest: Vec<String> = Vec::new();
    let mut i: usize = 5;
    while i < columns.len()
        invariant
            5 <= i <= columns.len(),
            all == columns.deep_view(),
            rest.deep_view() =~= all.subrange(5, i as int),
        decreases columns.len() - i,
    {
        let ghost before = rest.deep_view();
        rest.push(columns[i].clone());
        assert(rest.deep_view() =~= before.push(all[i as int]));
        i += 1;
    }
    assert(rest.deep_view() =~= all.skip(5));
    let joined = text::join(&rest, ",");
    let zip = joined.as_str().trim();
    if zip.is_empty() {
        None
    } else {
        Some(zip.to_owned())
    }
}

fn read_coordinate(column: &String) -> (res: String)
    ensures
        res@ == coordinate_text(column@),
{
    text::replace_all(column.as_str().trim(), '\u{2212}', '-')
}

fn read_entry(columns: &Vec<String>, line: usize) -> (res: Result<GazetteerEntry, GeocodeError>)
    ensures
        outcome::of(res) == entry_of(columns.deep_view(), line as nat),
{
    if columns.len() < 5 {
        return Err(
            GeocodeError::MalformedRow {
                line,
                reason: "expected \u{2265}5 columns, got ".to_owned().concat(
                    &text::write_decimal(columns.len() as u64),
                ),
            },
        );
    }
    proof {
        let all = columns.deep_view();
        assert(all[0] == columns@[0]@ && all[1] == columns@[1]@ && all[2] == columns@[2]@);
        assert(all[3] == columns@[3]@ && all[4] == columns@[4]@);
    }
    let kind = columns[0].as_str().trim();
    let name = columns[1].as_str().trim();
    let state = text::upper(columns[2].as_str().trim());
    let lat = read_coordinate(&columns[3]);
    let lon = read_coordinate(&columns[4]);
    if !decimal::is_number(&lat) {
        return Err(
            GeocodeError::MalformedRow {
                line,
                reason: "invalid lat ".to_owned().concat(&text::quote(&lat)),
            },
        );
    }
    if !decimal::is_number(&lon) {
        return Err(
            GeocodeError::MalformedRow {
                line,
                reason: "invalid lon ".to_owned().concat(&text::quote(&lon)),
            },
        );
    }
    let zip = if text::same(kind, "Z") {
        Some(name.to_owned())
    } else {
        read_zip_column(columns)
    };
    Ok(GazetteerEntry { name_lower: text::lower(name), state, lat, lon, zip })
}

/// A fault in the first lines is a fault of the whole.
proof fn lemma_fault_stays(lines: Seq<Seq<char>>, n: int)
    requires
        0 <= n <= lines.len(),
        entries_of(lines.take(n)) is Err,
    ensures
        entries_of(lines) == entries_of(lines.take(n)),
    decreases lines.len(),
{
    if n == lines.len() {
        assert(lines.take(n) =~= lines);
    } else {
        assert(lines.drop_last().take(n) =~= lines.take(n));
        lemma_fault_stays(lines.drop_last(), n);
    }
}

impl Gazetteer {
    /// Loads a gazetteer from comma-separated text. Blank lines and lines that
    /// begin with `#` are skipped; the first malformed row is an error.
    pub fn load_csv(csv_text: &str) -> (res: Result<Self, GeocodeError>)
        ensures
            gazetteer_or(res) == entries_of(text::split_on(csv_text@, '\n')),
    {
        let lines = text::split(csv_text, '\n');
        let ghost all = lines.deep_view();
        let mut gz = Gazetteer { entries: Vec::new() };
        let mut i: usize = 0;
        assert(all.take(0) =~= Seq::empty());
        assert(gz@ =~= Seq::empty());
        while i < lines.len()
            invariant
                i <= lines.len(),
                all == lines.deep_view(),
                all == text::split_on(csv_text@, '\n'),
                entries_of(all.take(i as int)) == Ok::<Seq<EntryView>, GeocodeErrorView>(gz@),
            decreases lines.len() - i,
        {
            proof {
                assert(all.take(i + 1).drop_last() =~= all.take(i as int));
                assert(all.take(i + 1).last() == lines@[i as int]@);
            }
            let line = lines[i].as_str().trim();
            proof {
                reveal_strlit("#");
                assert("#"@ =~= seq!['#']);
                if line@.len() > 0 {
                    assert(line@.subrange(0, 1) =~= seq![line@[0]]);
                    assert(seq![line@[0]][0] == line@[0]);
                    assert(seq!['#'][0] == '#');
                }
            }
            if !line.is_empty() && !text::starts_with(line, "#") {
                match read_entry(&text::split(line, ','), i + 1) {
                    Ok(entry) => {
                        let ghost before = gz@;
                        gz.entries.push(entry);
                        assert(gz@ =~= before.push(entry.deep_view()));
                    },
                    Err(e) => {
                        proof {
                            lemma_fault_stays(all, i + 1);
                        }
                        return Err(e);
                    },
                }
            }
            i += 1;
        }
        assert(all.take(lines.len() as int) =~= all);
        Ok(gz)
    }

    /// Looks a ZIP code up.
    #[must_use]
    pub fn lookup_zip(&self, zip: &str) -> (res: Option<&GazetteerEntry>)
        ensures
            found(res) == entry_of_zip(self@, zip@),
    {
        let ghost all = self@;
        let mut n: usize = self.entries.len();
        assert(all.take(n as int) =~= all);
        while n > 0
            invariant
                n <= self.entries.len(),
                all == self.entries.deep_view(),
                entry_of_zip(all.take(n as int), zip@) == entry_of_zip(all, zip@),
            decreases n,
        {
            n -= 1;
            let entry = &self.entries[n];
            proof {
                assert(all.take(n + 1).drop_last() =~= all.take(n as int));
                assert(all.take(n + 1).last() == entry.deep_view());
            }
            if let Some(z) = &entry.zip {
                if text::same(z, zip) {
                    return Some(entry);
                }
            }
        }
        None
    }

    /// Looks a place up by name and state, in whatever case they are written.
    #[must_use]
    pub fn lookup_name_state(&self, name: &str, state: &str) -> (res: Option<&GazetteerEntry>)
        ensures
            found(res) == entry_named(self@, name@, state@),
    {
        let lower = text::lower(name);
        let upper = text::upper(state);
        let ghost all = self@;
        let mut n: usize = self.entries.len();
        assert(all.take(n as int) =~= all);
        while n > 0
            invariant
                n <= self.entries.len(),
                all == self.entries.deep_view(),
                lower@ == text::lowercase(name@),
                upper@ == text::uppercase(state@),
                entry_at(all.take(n as int), lower@, upper@) == entry_at(all, lower@, upper@),
            decreases n,
        {
            n -= 1;
            let entry = &self.entries[n];
            proof {
                assert(all.take(n + 1).drop_last() =~= all.take(n as int));
                assert(all.take(n + 1).last() == entry.deep_view());
            }
            if text::same(&entry.name_lower, &lower) && text::same(&entry.state, &upper) {
                return Some(entry);
            }
        }
        None
    }

    /// Looks a place up by name and state. A name without a state is ambiguous,
    /// and finds nothing.
    #[must_use]
    pub fn lookup(&self, name: &str, state: Option<&str>) -> (res: Option<&GazetteerEntry>)
        ensures
            found(res) == (match state {
                Some(s) => entry_named(self@, name@, s@),
                None => None,
            }),
    {
        match state {
            Some(s) => self.lookup_name_state(name, s),
            None => None,
        }
    }
}

// ---------------------------------------------------------------------------
// Laws
// ---------------------------------------------------------------------------

/// A place is found in whatever case its name and state are written.
pub proof fn lookup_ignores_case(entries: Seq<EntryView>, name: Seq<char>, state: Seq<char>)
    requires
        text::all_ascii(name),
        text::all_ascii(state),
    ensures
        entry_named(entries, text::uppercase(name), text::lowercase(state)) == entry_named(
            entries,
            name,
            state,
        ),
{
    let shouted = text::uppercase(name);
    let whispered = text::lowercase(state);
    assert forall|i: int| 0 <= i < shouted.len() implies 0 <= #[trigger] (shouted[i] as u32)
        < 128 by {
        assert(0 <= (name[i] as u32) < 128);
    }
    assert forall|i: int| 0 <= i < whispered.len() implies 0 <= #[trigger] (whispered[i] as u32)
        < 128 by {
        assert(0 <= (state[i] as u32) < 128);
    }
    assert(text::lowercase(shouted) =~= text::lowercase(name));
    assert(text::uppercase(whispered) =~= text::uppercase(state));
}

/// A later row takes the place of an earlier one with the same name and state,
/// or the same ZIP code.
pub proof fn later_rows_win(entries: Seq<EntryView>, entry: EntryView)
    ensures
        entry_at(entries.push(entry), entry.name_lower, entry.state) == Some(entry),
        entry.zip is Some ==> entry_of_zip(entries.push(entry), entry.zip->0) == Some(entry),
{
}

/// What a lookup finds is an entry of the gazetteer.
pub proof fn lookups_find_entries(entries: Seq<EntryView>, name: Seq<char>, state: Seq<char>)
    ensures
        entry_at(entries, name, state) is Some ==> entries.contains(
            entry_at(entries, name, state)->0,
        ) && entry_at(entries, name, state)->0.name_lower == name && entry_at(
            entries,
            name,
            state,
        )->0.state == state,
        entry_of_zip(entries, name) is Some ==> entries.contains(entry_of_zip(entries, name)->0)
            && entry_of_zip(entries, name)->0.zip == Some(name),
    decreases entries.len(),
{
    if entries.len() > 0 {
        let front = entries.drop_last();
        lookups_find_entries(front, name, state);
        assert(entries[entries.len() - 1] == entries.last());
        assert forall|e: EntryView| front.contains(e) implies entries.contains(e) by {
            let i = choose|i: int| 0 <= i < front.len() && front[i] == e;
            assert(entries[i] == e);
        }
    }
}

/// A ZIP code stands for the last entry that has it, and for none where none has.
pub proof fn zip_codes_find_the_last_entry(entries: Seq<EntryView>, zip: Seq<char>, k: int)
    requires
        0 <= k < entries.len(),
        entries[k].zip == Some(zip),
        forall|j: int| k < j < entries.len() ==> (#[trigger] entries[j]).zip != Some(zip),
    ensures
        entry_of_zip(entries, zip) == Some(entries[k]),
    decreases entries.len(),
{
    if k < entries.len() - 1 {
        assert(entries[entries.len() - 1].zip != Some(zip));
        let front = entries.drop_last();
        assert forall|j: int| k < j < front.len() implies (#[trigger] front[j]).zip != Some(zip) by {
            assert(entries[j].zip != Some(zip));
        }
        zip_codes_find_the_last_entry(front, zip, k);
    }
}

/// A name and a state stand for the last entry that has both, in whatever case the
/// name and the state are written.
pub proof fn names_find_the_last_entry(
    entries: Seq<EntryView>,
    name: Seq<char>,
    state: Seq<char>,
    k: int,
)
    requires
        0 <= k < entries.len(),
        entries[k].name_lower == text::lowercase(name),
        entries[k].state == text::uppercase(state),
        forall|j: int|
            k < j < entries.len() ==> (#[trigger] entries[j]).name_lower != text::lowercase(name)
                || entries[j].state != text::uppercase(state),
    ensures
        entry_named(entries, name, state) == Some(entries[k]),
    decreases entries.len(),
{
    if k < entries.len() - 1 {
        let last = entries[entries.len() - 1];
        assert(last.name_lower != text::lowercase(name) || last.state != text::uppercase(state));
        let front = entries.drop_last();
        assert forall|j: int| k < j < front.len() implies (#[trigger] front[j]).name_lower
            != text::lowercase(name) || front[j].state != text::uppercase(state) by {
            assert(entries[j] == front[j]);
        }
        names_find_the_last_entry(front, name, state, k);
    }
}

/// What is in no entry is not found.
pub proof fn strangers_are_not_found(entries: Seq<EntryView>, name: Seq<char>, state: Seq<char>)
    ensures
        (forall|j: int| 0 <= j < entries.len() ==> (#[trigger] entries[j]).zip != Some(name))
            ==> entry_of_zip(entries, name) is None,
        (forall|j: int|
            0 <= j < entries.len() ==> (#[trigger] entries[j]).name_lower != text::lowercase(name)
                || entries[j].state != text::uppercase(state)) ==> entry_named(
            entries,
            name,
            state,
        ) is None,
{
    lookups_find_entries(entries, text::lowercase(name), text::uppercase(state));
    lookups_find_entries(entries, name, name);
}

/// The place of an entry is in the entry's state and goes by the entry's name, and
/// its coordinates are the entry's, each rounded to hundredths of a degree.
pub proof fn places_are_where_the_entry_says(entry: EntryView)
    ensures
        place_of(entry).lat == decimal::in_units(entry.lat, 2),
        place_of(entry).lon == decimal::in_units(entry.lon, 2),
        place_of(entry).precision == 2,
        place_of(entry).city_county == entry.name_lower,
        place_of(entry).state == Some(entry.state),
{
}

/// Whether a text can be a column as it stands: no comma is in it, and no
/// whitespace at its ends.
pub open spec fn is_column(s: Seq<char>) -> bool {
    !s.contains(',') && (s.len() > 0 ==> !text::is_white(s[0]) && !text::is_white(s.last()))
}

/// A row of a kind, a name, a state, a latitude and a longitude is one more entry,
/// of that name and state at those coordinates. The name of a row of kind `Z` is
/// its ZIP code; any other has the ZIP code of the sixth column, if it has one. A
/// row whose coordinates are no numbers is a fault of its line.
pub proof fn rows_are_entries(
    lines: Seq<Seq<char>>,
    kind: Seq<char>,
    name: Seq<char>,
    state: Seq<char>,
    lat: Seq<char>,
    lon: Seq<char>,
    zip: Seq<char>,
    six: bool,
)
    requires
        entries_of(lines) is Ok,
        is_column(kind),
        is_column(name),
        is_column(state),
        is_column(lat),
        is_column(lon),
        is_column(zip),
        kind.len() > 0,
        kind[0] != '#',
        lon.len() > 0,
        zip.len() > 0,
        !lat.contains('\u{2212}'),
        !lon.contains('\u{2212}'),
    ensures
        ({
            let five = kind.push(',') + name.push(',') + state.push(',') + lat.push(',') + lon;
            let row = if six {
                five.push(',') + zip
            } else {
                five
            };
            let read = entries_of(lines.push(row));
            if decimal::number_of(lat) is Some && decimal::number_of(lon) is Some {
                read == Ok::<Seq<EntryView>, GeocodeErrorView>(
                    entries_of(lines)->Ok_0.push(
                        EntryView {
                            name_lower: text::lowercase(name),
                            state: text::uppercase(state),
                            lat,
                            lon,
                            zip: if kind == seq!['Z'] {
                                Some(name)
                            } else if six {
                                Some(zip)
                            } else {
                                None
                            },
                        },
                    ),
                )
            } else {
                read matches Err(GeocodeErrorView::MalformedRow { line, reason: _ }) && line
                    == lines.len() + 1
            }
        }),
{
    reveal_strlit("Z");
    reveal_strlit(",");
    assert("Z"@ =~= seq!['Z']);
    let r2 = kind.push(',') + name;
    let r3 = r2.push(',') + state;
    let r4 = r3.push(',') + lat;
    let r5 = r4.push(',') + lon;
    let r6 = r5.push(',') + zip;
    text::only_part(kind, ',');
    text::next_part(kind, name, ',');
    text::next_part(r2, state, ',');
    text::next_part(r3, lat, ',');
    text::next_part(r4, lon, ',');
    text::next_part(r5, zip, ',');
    let five = kind.push(',') + name.push(',') + state.push(',') + lat.push(',') + lon;
    assert(five =~= r5);
    let row = if six {
        five.push(',') + zip
    } else {
        five
    };
    let columns = text::split_on(row, ',');
    assert(columns =~= (if six {
        seq![kind, name, state, lat, lon, zip]
    } else {
        seq![kind, name, state, lat, lon]
    }));
    assert(row[0] == kind[0]);
    assert(row.last() == (if six {
        zip.last()
    } else {
        lon.last()
    }));
    text::trimming_keeps_the_rest(row);
    text::trimming_keeps_the_rest(kind);
    text::trimming_keeps_the_rest(name);
    text::trimming_keeps_the_rest(state);
    text::trimming_keeps_the_rest(lat);
    text::trimming_keeps_the_rest(lon);
    text::trimming_keeps_the_rest(zip);
    assert(coordinate_text(lat) =~= lat) by {
        assert forall|i: int| 0 <= i < lat.len() implies lat[i] != '\u{2212}' by {}
    }
    assert(coordinate_text(lon) =~= lon) by {
        assert forall|i: int| 0 <= i < lon.len() implies lon[i] != '\u{2212}' by {}
    }
    if six {
        assert(columns.skip(5) =~= seq![zip]);
    }
    assert(lines.push(row).drop_last() =~= lines);
}

} // verus!
