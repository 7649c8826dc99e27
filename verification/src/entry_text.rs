//! Catalog entries as text: what the lines of an entry say, and that the entry
//! of a probed dataset says what was found of it.
//!
//! Of TOML only the lines are read here that entries are written in: headers,
//! blank lines and pairs of a bare key and a plain string, with or without a
//! comment behind them. Catalog files are loaded by the `toml` crate.

use vstd::prelude::*;

use crate::connectors::socrata::ColumnMapView;
use crate::discover::CandidateFamily;
use crate::probe;
use crate::probe::{DraftView, ProbeResultView, SLOTS};
use crate::text;

verus! {

// ---------------------------------------------------------------------------
// Reading
// ---------------------------------------------------------------------------

/// What a line says.
pub enum Line {
    /// Nothing.
    Blank,
    /// `[[family]]`: an entry begins.
    Entry {
        /// The family of the entry.
        family: Seq<char>,
    },
    /// `[path]`: a table begins.
    Table {
        /// The path of the table.
        path: Seq<char>,
    },
    /// `key = "value"`: a key has a value.
    Pair {
        /// The key.
        key: Seq<char>,
        /// The value.
        value: Seq<char>,
    },
    /// Something else.
    Other,
}

/// The key and the value of a line that gives a key a plain string, with or
/// without a comment behind it.
pub open spec fn pair_of(line: Seq<char>) -> Option<(Seq<char>, Seq<char>)> {
    match line.index_of_first('=') {
        None => None,
        Some(sign) => {
            let key = text::trimmed(line.take(sign));
            let rest = text::trimmed_start(line.skip(sign + 1));
            if rest.len() == 0 || rest[0] != '"' {
                None
            } else {
                match rest.skip(1).index_of_first('"') {
                    None => None,
                    Some(end) => {
                        let value = rest.skip(1).take(end);
                        let behind = text::trimmed_start(rest.skip(1).skip(end + 1));
                        if text::all_plain(value) && (behind.len() == 0 || behind[0] == '#') {
                            Some((key, value))
                        } else {
                            None
                        }
                    },
                }
            }
        },
    }
}

/// What a line says.
pub open spec fn line_of(line: Seq<char>) -> Line {
    let n = line.len() as int;
    if n == 0 {
        Line::Blank
    } else if line[0] == '[' {
        if n >= 4 && line[1] == '[' && line[n - 2] == ']' && line[n - 1] == ']' {
            Line::Entry { family: line.subrange(2, n - 2) }
        } else if n >= 2 && line[1] != '[' && line[n - 1] == ']' {
            Line::Table { path: line.subrange(1, n - 1) }
        } else {
            Line::Other
        }
    } else {
        match pair_of(line) {
            Some((key, value)) => Line::Pair { key, value },
            None => Line::Other,
        }
    }
}

/// An entry of a catalog, as far as its lines have been read.
pub struct EntryView {
    /// The family of the entry.
    pub family: Seq<char>,
    /// The values of its own keys.
    pub fields: Map<Seq<char>, Seq<char>>,
    /// The values of the keys of its column map.
    pub columns: Map<Seq<char>, Seq<char>>,
    /// Whether the column map has begun.
    pub mapping: bool,
}

impl EntryView {
    /// An entry of which nothing but its header has been read.
    pub open spec fn begun(family: Seq<char>) -> EntryView {
        EntryView { family, fields: Map::empty(), columns: Map::empty(), mapping: false }
    }

    /// The entry with its column map begun; it can begin once.
    pub open spec fn with_table(self, path: Seq<char>) -> Option<EntryView> {
        if path == self.family + ".column_map"@ && !self.mapping {
            Some(EntryView { mapping: true, ..self })
        } else {
            None
        }
    }

    /// The entry with one more pair; a key can have one value.
    pub open spec fn with_pair(self, key: Seq<char>, value: Seq<char>) -> Option<EntryView> {
        if self.mapping {
            if self.columns.dom().contains(key) {
                None
            } else {
                Some(EntryView { columns: self.columns.insert(key, value), ..self })
            }
        } else if self.fields.dom().contains(key) {
            None
        } else {
            Some(EntryView { fields: self.fields.insert(key, value), ..self })
        }
    }
}

/// The entries with the last one replaced, where there is one to replace it by.
pub open spec fn with_last(entries: Seq<EntryView>, last: Option<EntryView>) -> Option<
    Seq<EntryView>,
> {
    match last {
        Some(e) => Some(entries.drop_last().push(e)),
        None => None,
    }
}

/// The entries with one more line; `None` where it is not understood there.
pub open spec fn with_line(entries: Seq<EntryView>, line: Line) -> Option<Seq<EntryView>> {
    match line {
        Line::Blank => Some(entries),
        Line::Entry { family } => Some(entries.push(EntryView::begun(family))),
        Line::Table { path } => if entries.len() == 0 {
            None
        } else {
            with_last(entries, entries.last().with_table(path))
        },
        Line::Pair { key, value } => if entries.len() == 0 {
            None
        } else {
            with_last(entries, entries.last().with_pair(key, value))
        },
        Line::Other => None,
    }
}

/// The entries that lines hold; `None` where a line is not understood.
pub open spec fn entries_of(lines: Seq<Seq<char>>) -> Option<Seq<EntryView>>
    decreases lines.len(),
{
    if lines.len() == 0 {
        Some(Seq::empty())
    } else {
        match entries_of(lines.drop_last()) {
            None => None,
            Some(entries) => with_line(entries, line_of(lines.last())),
        }
    }
}

/// The entries that a text holds; `None` where a line is not understood.
pub open spec fn read_entries(s: Seq<char>) -> Option<Seq<EntryView>> {
    entries_of(text::split_on(s, '\n'))
}

/// The value of a key, if it has one.
pub open spec fn value_of(pairs: Map<Seq<char>, Seq<char>>, key: Seq<char>) -> Option<Seq<char>> {
    if pairs.dom().contains(key) {
        Some(pairs[key])
    } else {
        None
    }
}

/// The column map that pairs make; `None` where a required column is missing.
pub open spec fn read_column_map(pairs: Map<Seq<char>, Seq<char>>) -> Option<ColumnMapView> {
    match (
        value_of(pairs, "animal_id"@),
        value_of(pairs, "animal_type"@),
        value_of(pairs, "intake_type"@),
    ) {
        (Some(animal_id), Some(animal_type), Some(intake_type)) => Some(
            ColumnMapView {
                animal_id,
                animal_type,
                intake_type,
                outcome_date: value_of(pairs, "outcome_date"@),
                kennel_status: value_of(pairs, "kennel_status"@),
                found_location: value_of(pairs, "found_location"@),
                chip_status: value_of(pairs, "chip_status"@),
                intake_date: value_of(pairs, "intake_date"@),
                breed: value_of(pairs, "breed"@),
                name: value_of(pairs, "name"@),
                color: value_of(pairs, "color"@),
            },
        ),
        _ => None,
    }
}

// ---------------------------------------------------------------------------
// Lines
// ---------------------------------------------------------------------------

/// Whether a text ends with a line break, or is empty.
spec fn ends_line(s: Seq<char>) -> bool {
    let parts = text::split_on(s, '\n');
    parts.len() >= 1 && parts.last() == Seq::<char>::empty()
}

/// The lines of a text that ends with a line break.
spec fn lines(s: Seq<char>) -> Seq<Seq<char>> {
    text::split_on(s, '\n').drop_last()
}

/// Whether a text stands on one line.
spec fn on_a_line(w: Seq<char>) -> bool {
    forall|i: int| 0 <= i < w.len() ==> #[trigger] w[i] != '\n'
}

proof fn lemma_line_goes_on(s: Seq<char>, w: Seq<char>)
    requires
        on_a_line(w),
    ensures
        ({
            let before = text::split_on(s, '\n');
            text::split_on(s + w, '\n') == before.update(before.len() - 1, before.last() + w)
        }),
    decreases w.len(),
{
    let before = text::split_on(s, '\n');
    text::split_has_a_part(s, '\n');
    if w.len() == 0 {
        assert(s + w =~= s);
        assert(before.last() + w =~= before.last());
        assert(before.update(before.len() - 1, before.last()) =~= before);
    } else {
        lemma_line_goes_on(s, w.drop_last());
        assert((s + w).drop_last() =~= s + w.drop_last());
        assert(before.last() + w =~= (before.last() + w.drop_last()).push(w.last()));
        assert(text::split_on(s + w, '\n') =~= before.update(
            before.len() - 1,
            before.last() + w,
        ));
    }
}

proof fn lemma_next_line(s: Seq<char>, w: Seq<char>)
    requires
        ends_line(s),
        on_a_line(w),
        entries_of(lines(s)) is Some,
    ensures
        ends_line(s + w + "\n"@),
        entries_of(lines(s + w + "\n"@)) == with_line(entries_of(lines(s))->0, line_of(w)),
{
    reveal_strlit("\n");
    lemma_line_goes_on(s, w);
    assert(Seq::<char>::empty() + w =~= w);
    assert((s + w + "\n"@).drop_last() =~= s + w);
    assert(lines(s + w + "\n"@) =~= lines(s).push(w));
    assert(lines(s).push(w).drop_last() =~= lines(s));
}

/// Whether a text is a bare key: a word of small letters and underscores.
spec fn is_key(s: Seq<char>) -> bool {
    s.len() > 0 && forall|i: int|
        0 <= i < s.len() ==> ('a' <= #[trigger] s[i] <= 'z' || s[i] == '_')
}

/// The line of a pair.
spec fn pair_line(key: Seq<char>, value: Seq<char>, behind: Seq<char>) -> Seq<char> {
    key + " = "@ + text::quoted(value) + behind
}

proof fn lemma_pair_reads(key: Seq<char>, value: Seq<char>, behind: Seq<char>)
    requires
        is_key(key),
        text::all_plain(value),
        behind.len() == 0 || (behind.len() > 2 && behind[0] == ' ' && behind[1] == ' ' && behind[2]
            == '#' && on_a_line(behind)),
    ensures
        line_of(pair_line(key, value, behind)) == (Line::Pair { key, value }),
        on_a_line(pair_line(key, value, behind)),
{
    reveal_strlit(" = ");
    let line = pair_line(key, value, behind);
    let k = key.len() as int;
    let v = value.len() as int;
    assert(line[k] == ' ' && line[k + 1] == '=' && line[k + 2] == ' ' && line[k + 3] == '"');
    assert forall|i: int| 0 <= i < k implies line[i] == key[i] by {}
    assert forall|i: int| 0 <= i < v implies line[k + 4 + i] == value[i] by {}
    assert forall|i: int| 0 <= i < line.len() implies #[trigger] line[i] != '\n' by {
        if i < k {
            assert(line[i] == key[i]);
        } else if k + 4 <= i < k + 4 + v {
            assert(line[i] == value[i - k - 4]);
            assert(text::is_plain(value[i - k - 4]));
        } else if i >= k + 5 + v {
            assert(line[i] == behind[i - k - 5 - v]);
        }
    }
    // The sign.
    line.index_of_first_ensures('=');
    assert(line.contains('=')) by {
        assert(line[k + 1] == '=');
    }
    let sign = line.index_of_first('=')->0;
    assert(sign == k + 1) by {
        if sign < k {
            assert(line[sign] == key[sign]);
        }
    }
    // The key.
    let left = line.take(sign);
    assert(left =~= key.push(' '));
    assert(!text::is_white(key[0]) && !text::is_white(key[k - 1]));
    assert(text::trimmed_start(left) == left);
    assert(left.drop_last() =~= key);
    assert(text::is_white(' '));
    reveal_with_fuel(text::trimmed_end, 3);
    assert(text::trimmed(left) == key);
    // The value.
    let right = line.skip(sign + 1);
    let rest = seq!['"'] + value + seq!['"'] + behind;
    assert(right =~= seq![' '] + rest);
    assert(right.drop_first() =~= rest);
    assert(!text::is_white('"'));
    reveal_with_fuel(text::trimmed_start, 4);
    assert(text::trimmed_start(right) == rest);
    let body = rest.skip(1);
    assert(body =~= value + seq!['"'] + behind);
    body.index_of_first_ensures('"');
    assert(body[v] == '"');
    assert(body.contains('"'));
    let end = body.index_of_first('"')->0;
    assert(end == v) by {
        if end < v {
            assert(body[end] == value[end]);
            assert(text::is_plain(value[end]));
        }
    }
    assert(body.take(end) =~= value);
    // The comment.
    let tail = body.skip(end + 1);
    assert(tail =~= behind);
    if behind.len() > 0 {
        assert(!text::is_white('#'));
        assert(behind.drop_first()[0] == ' ');
        assert(behind.drop_first().drop_first()[0] == '#');
    }
}

// ---------------------------------------------------------------------------
// The columns
// ---------------------------------------------------------------------------

proof fn lemma_slots()
    ensures
        forall|i: int| 0 <= i < 11 ==> is_key(#[trigger] SLOTS@[i]@),
        forall|i: int, j: int|
            0 <= i < j < 11 ==> #[trigger] SLOTS@[i]@ != #[trigger] SLOTS@[j]@,
{
    reveal_strlit("animal_id");
    reveal_strlit("animal_type");
    reveal_strlit("intake_type");
    reveal_strlit("intake_date");
    reveal_strlit("found_location");
    reveal_strlit("chip_status");
    reveal_strlit("kennel_status");
    reveal_strlit("breed");
    reveal_strlit("name");
    reveal_strlit("color");
    reveal_strlit("outcome_date");
    assert forall|i: int, j: int| 0 <= i < j < 11 implies #[trigger] SLOTS@[i]@
        != #[trigger] SLOTS@[j]@ by {
        probe::each_slot_has_a_place(i);
        probe::each_slot_has_a_place(j);
    }
}

/// The pairs that the first `n` slots of a draft make.
spec fn pairs_upto(draft: DraftView, n: nat) -> Map<Seq<char>, Seq<char>>
    decreases n,
{
    if n == 0 {
        Map::empty()
    } else {
        let before = pairs_upto(draft, (n - 1) as nat);
        match draft.columns[n - 1] {
            Some(mc) => before.insert(SLOTS@[n - 1]@, mc.source_col),
            None => before,
        }
    }
}

proof fn lemma_pairs_upto(draft: DraftView, n: nat)
    requires
        n <= 11,
    ensures
        forall|i: int|
            0 <= i < n ==> value_of(pairs_upto(draft, n), #[trigger] SLOTS@[i]@)
                == probe::source_col(draft.columns[i]),
        forall|i: int|
            n <= i < 11 ==> !pairs_upto(draft, n).dom().contains(#[trigger] SLOTS@[i]@),
    decreases n,
{
    if n > 0 {
        lemma_pairs_upto(draft, (n - 1) as nat);
        lemma_slots();
    }
}

/// Whether every column of a draft has a plain name.
pub open spec fn plain_columns(draft: DraftView) -> bool {
    forall|i: int|
        0 <= i < draft.columns.len() ==> ((#[trigger] draft.columns[i]) matches Some(mc)
            ==> text::all_plain(mc.source_col))
}

proof fn lemma_columns_read(s: Seq<char>, entry: EntryView, draft: DraftView, n: nat)
    requires
        n <= 11,
        draft.columns.len() == 11,
        plain_columns(draft),
        ends_line(s),
        entries_of(lines(s)) == Some(seq![entry]),
        entry.mapping,
        entry.columns == Map::<Seq<char>, Seq<char>>::empty(),
    ensures
        ends_line(s + probe::column_lines(draft, n)),
        entries_of(lines(s + probe::column_lines(draft, n))) == Some(
            seq![EntryView { columns: pairs_upto(draft, n), ..entry }],
        ),
    decreases n,
{
    if n == 0 {
        assert(s + probe::column_lines(draft, n) =~= s);
    } else {
        let m = (n - 1) as nat;
        let before = s + probe::column_lines(draft, m);
        let slot = SLOTS@[n - 1]@;
        lemma_columns_read(s, entry, draft, m);
        assert(s + probe::column_lines(draft, n) =~= before + probe::column_line(
            slot,
            draft.columns[n - 1],
        ));
        match draft.columns[n - 1] {
            None => {
                assert(before + Seq::<char>::empty() =~= before);
            },
            Some(mc) => {
                reveal_strlit("  # ");
                reveal_strlit("confirmed");
                reveal_strlit("guessed");
                let behind = "  # "@ + mc.confidence.word();
                assert(on_a_line(mc.confidence.word()));
                assert(on_a_line(behind)) by {
                    assert forall|i: int| 0 <= i < behind.len() implies #[trigger] behind[i]
                        != '\n' by {
                        if i >= 4 {
                            assert(behind[i] == mc.confidence.word()[i - 4]);
                        }
                    }
                }
                lemma_slots();
                assert(is_key(slot));
                lemma_pair_reads(slot, mc.source_col, behind);
                let line = pair_line(slot, mc.source_col, behind);
                assert(before + probe::column_line(slot, draft.columns[n - 1]) =~= before + line
                    + "\n"@);
                lemma_next_line(before, line);
                lemma_pairs_upto(draft, m);
                let found = seq![EntryView { columns: pairs_upto(draft, m), ..entry }];
                assert(found.drop_last().push(
                    EntryView { columns: pairs_upto(draft, n), ..entry },
                ) =~= seq![EntryView { columns: pairs_upto(draft, n), ..entry }]);
            },
        }
    }
}

// ---------------------------------------------------------------------------
// The entry
// ---------------------------------------------------------------------------

proof fn lemma_keys(family: CandidateFamily)
    ensures
        is_key("name"@),
        is_key("dataset_id"@),
        is_key(probe::portal_key(family)),
        "name"@ != "dataset_id"@,
        "name"@ != probe::portal_key(family),
        "dataset_id"@ != probe::portal_key(family),
        is_key(family.name()),
{
    reveal_strlit("name");
    reveal_strlit("dataset_id");
    reveal_strlit("domain");
    reveal_strlit("base_url");
    reveal_strlit("socrata");
    reveal_strlit("opendatasoft");
}

proof fn lemma_headers(family: Seq<char>)
    requires
        is_key(family),
    ensures
        on_a_line("[["@ + family + "]]"@),
        line_of("[["@ + family + "]]"@) == (Line::Entry { family }),
        on_a_line("["@ + family + ".column_map]"@),
        line_of("["@ + family + ".column_map]"@) == (Line::Table {
            path: family + ".column_map"@,
        }),
{
    reveal_strlit("[[");
    reveal_strlit("]]");
    reveal_strlit("[");
    reveal_strlit(".column_map]");
    reveal_strlit(".column_map");
    let n = family.len() as int;
    let header = "[["@ + family + "]]"@;
    assert(header.subrange(2, n + 2) =~= family);
    assert forall|i: int| 0 <= i < header.len() implies #[trigger] header[i] != '\n' by {
        if 2 <= i < n + 2 {
            assert(header[i] == family[i - 2]);
        }
    }
    let table = "["@ + family + ".column_map]"@;
    assert(table[1] == family[0]);
    assert(table.subrange(1, n + 12) =~= family + ".column_map"@);
    assert(on_a_line(".column_map]"@));
    assert forall|i: int| 0 <= i < table.len() implies #[trigger] table[i] != '\n' by {
        if 1 <= i < n + 1 {
            assert(table[i] == family[i - 1]);
        } else if i >= n + 1 {
            assert(table[i] == ".column_map]"@[i - n - 1]);
        }
    }
}

proof fn lemma_pair_added(
    s: Seq<char>,
    entry: EntryView,
    key: Seq<char>,
    value: Seq<char>,
    grown: EntryView,
)
    requires
        ends_line(s),
        entries_of(lines(s)) == Some(seq![entry]),
        is_key(key),
        text::all_plain(value),
        entry.with_pair(key, value) == Some(grown),
    ensures
        ends_line(s + pair_line(key, value, Seq::empty()) + "\n"@),
        entries_of(lines(s + pair_line(key, value, Seq::empty()) + "\n"@)) == Some(seq![grown]),
{
    let line = pair_line(key, value, Seq::empty());
    lemma_pair_reads(key, value, Seq::empty());
    lemma_next_line(s, line);
    assert(seq![entry].drop_last().push(grown) =~= seq![grown]);
}

/// The text of an entry up to its columns, line by line.
spec fn head_by_lines(result: ProbeResultView) -> Seq<char> {
    let family = result.family.name();
    let none = Seq::<char>::empty();
    let s1 = none + ("[["@ + family + "]]"@) + "\n"@;
    let s2 = s1 + pair_line("name"@, result.source_name, none) + "\n"@;
    let s3 = s2 + pair_line(probe::portal_key(result.family), result.domain, none) + "\n"@;
    let s4 = s3 + pair_line("dataset_id"@, result.dataset_id, none) + "\n"@;
    let s5 = s4 + none + "\n"@;
    s5 + ("["@ + family + ".column_map]"@) + "\n"@
}

proof fn lemma_entry_by_lines(result: ProbeResultView, draft: DraftView)
    requires
        result.column_map == Some(draft),
    ensures
        probe::toml_entry(result) == head_by_lines(result) + probe::column_lines(draft, 11),
{
    reveal_strlit("]]");
    reveal_strlit("]]\n");
    reveal_strlit("\n");
    reveal_strlit("name");
    reveal_strlit("name = ");
    reveal_strlit(" = ");
    reveal_strlit("dataset_id");
    reveal_strlit("dataset_id = ");
    reveal_strlit(".column_map]");
    reveal_strlit(".column_map]\n");
    let family = result.family.name();
    let portal = probe::portal_key(result.family);
    let none = Seq::<char>::empty();
    let s1 = none + ("[["@ + family + "]]"@) + "\n"@;
    let s2 = s1 + pair_line("name"@, result.source_name, none) + "\n"@;
    let s3 = s2 + pair_line(portal, result.domain, none) + "\n"@;
    let s4 = s3 + pair_line("dataset_id"@, result.dataset_id, none) + "\n"@;
    let s5 = s4 + none + "\n"@;
    let t1 = "[["@ + family + "]]\n"@;
    let t2 = t1 + "name = "@ + text::quoted(result.source_name) + "\n"@;
    let t3 = t2 + portal + " = "@ + text::quoted(result.domain) + "\n"@;
    let t4 = t3 + "dataset_id = "@ + text::quoted(result.dataset_id) + "\n"@;
    assert("]]\n"@ =~= "]]"@ + "\n"@);
    assert("name = "@ =~= "name"@ + " = "@);
    assert("dataset_id = "@ =~= "dataset_id"@ + " = "@);
    assert(".column_map]\n"@ =~= ".column_map]"@ + "\n"@);
    assert(s1 =~= t1);
    assert(s2 =~= t2);
    assert(s3 =~= t3);
    assert(s4 =~= t4);
    assert(s5 =~= t4 + "\n"@);
    assert(head_by_lines(result) =~= t4 + "\n"@ + "["@ + family + ".column_map]\n"@);
}

/// The entry of which all but the columns has been read.
spec fn entry_without_columns(result: ProbeResultView) -> EntryView {
    EntryView {
        family: result.family.name(),
        fields: Map::<Seq<char>, Seq<char>>::empty().insert("name"@, result.source_name).insert(
            probe::portal_key(result.family),
            result.domain,
        ).insert("dataset_id"@, result.dataset_id),
        columns: Map::empty(),
        mapping: true,
    }
}

proof fn lemma_head_reads(result: ProbeResultView)
    requires
        text::all_plain(result.source_name),
        text::all_plain(result.domain),
        text::all_plain(result.dataset_id),
    ensures
        ends_line(head_by_lines(result)),
        entries_of(lines(head_by_lines(result))) == Some(seq![entry_without_columns(result)]),
{
    let family = result.family.name();
    let portal = probe::portal_key(result.family);
    let none = Seq::<char>::empty();
    lemma_keys(result.family);
    lemma_headers(family);
    // The header.
    let header = "[["@ + family + "]]"@;
    let s1 = none + header + "\n"@;
    assert(lines(none) =~= Seq::empty());
    lemma_next_line(none, header);
    let e1 = EntryView::begun(family);
    assert(Seq::<EntryView>::empty().push(e1) =~= seq![e1]);
    // The entry's own pairs.
    let s2 = s1 + pair_line("name"@, result.source_name, none) + "\n"@;
    let e2 = EntryView { fields: e1.fields.insert("name"@, result.source_name), ..e1 };
    lemma_pair_added(s1, e1, "name"@, result.source_name, e2);
    let s3 = s2 + pair_line(portal, result.domain, none) + "\n"@;
    let e3 = EntryView { fields: e2.fields.insert(portal, result.domain), ..e2 };
    lemma_pair_added(s2, e2, portal, result.domain, e3);
    let s4 = s3 + pair_line("dataset_id"@, result.dataset_id, none) + "\n"@;
    let e4 = EntryView { fields: e3.fields.insert("dataset_id"@, result.dataset_id), ..e3 };
    lemma_pair_added(s3, e3, "dataset_id"@, result.dataset_id, e4);
    // The blank line and the header of the column map.
    let s5 = s4 + none + "\n"@;
    lemma_next_line(s4, none);
    lemma_next_line(s5, "["@ + family + ".column_map]"@);
    let e6 = EntryView { mapping: true, ..e4 };
    assert(seq![e4].drop_last().push(e6) =~= seq![e6]);
}

// ---------------------------------------------------------------------------
// The law
// ---------------------------------------------------------------------------

/// The text that is printed for a probed dataset reads back as one entry of its
/// family, with the name, the portal, the dataset and the column map that the
/// probe found, where these are plain text.
pub proof fn an_entry_reads_back(result: ProbeResultView, draft: DraftView)
    requires
        result.column_map == Some(draft),
        draft.columns.len() == 11,
        text::all_plain(result.source_name),
        text::all_plain(result.domain),
        text::all_plain(result.dataset_id),
        plain_columns(draft),
    ensures
        read_entries(probe::toml_entry(result)) matches Some(entries) && {
            &&& entries.len() == 1
            &&& entries[0].family == result.family.name()
            &&& entries[0].fields == Map::<Seq<char>, Seq<char>>::empty().insert(
                "name"@,
                result.source_name,
            ).insert(probe::portal_key(result.family), result.domain).insert(
                "dataset_id"@,
                result.dataset_id,
            )
            &&& read_column_map(entries[0].columns) == draft.column_map()
        },
{
    let head = head_by_lines(result);
    let whole = probe::toml_entry(result);
    lemma_entry_by_lines(result, draft);
    lemma_head_reads(result);
    lemma_columns_read(head, entry_without_columns(result), draft, 11);
    assert(text::split_on(whole, '\n').drop_last() == lines(whole));
    assert(line_of(Seq::<char>::empty()) == Line::Blank);
    lemma_pairs_upto(draft, 11);
    let pairs = pairs_upto(draft, 11);
    assert(value_of(pairs, SLOTS@[0]@) == probe::source_col(draft.columns[0]));
    assert(value_of(pairs, SLOTS@[1]@) == probe::source_col(draft.columns[1]));
    assert(value_of(pairs, SLOTS@[2]@) == probe::source_col(draft.columns[2]));
    assert(value_of(pairs, SLOTS@[3]@) == probe::source_col(draft.columns[3]));
    assert(value_of(pairs, SLOTS@[4]@) == probe::source_col(draft.columns[4]));
    assert(value_of(pairs, SLOTS@[5]@) == probe::source_col(draft.columns[5]));
    assert(value_of(pairs, SLOTS@[6]@) == probe::source_col(draft.columns[6]));
    assert(value_of(pairs, SLOTS@[7]@) == probe::source_col(draft.columns[7]));
    assert(value_of(pairs, SLOTS@[8]@) == probe::source_col(draft.columns[8]));
    assert(value_of(pairs, SLOTS@[9]@) == probe::source_col(draft.columns[9]));
    assert(value_of(pairs, SLOTS@[10]@) == probe::source_col(draft.columns[10]));
}

} // verus!
