//! Geographic coverage: where records come from, and where none do.
//!
//! Records are binned into an equal-angle grid of half-degree cells. A coverage
//! hole is a place that should have a feed and has none: a documented gap, or a
//! cell without a source among cells with records. Holes are estimates and are
//! labeled as such. Coordinates are fixed-point numbers.

use vstd::prelude::*;

use crate::decimal;
use crate::rank;
use crate::rank::Ranked;
use crate::schema::{IntakeType, PetRecord, PetRecordView};
use crate::text;
use crate::time::{Moment, Timestamp};

verus! {

// ---------------------------------------------------------------------------
// Cells
// ---------------------------------------------------------------------------

/// How many cells there are to a degree: each is half a degree wide.
pub const CELLS_PER_DEGREE: i64 = 2;

/// The index of the half-degree cell that `n / 10^precision` degrees lie in.
pub open spec fn cell_index(n: int, precision: nat) -> int {
    (CELLS_PER_DEGREE * n) / (decimal::pow10(precision) as int)
}

/// An integer brought into the range of an `i32`.
pub open spec fn clamped(n: int) -> int {
    if n < i32::MIN {
        i32::MIN as int
    } else if n > i32::MAX {
        i32::MAX as int
    } else {
        n
    }
}

/// A stable geographic cell identifier.
#[derive(Debug, Clone, Copy, PartialEq, Eq, Structural, Hash)]
pub struct CellId {
    /// Floor of the latitude in half degrees.
    pub lat_idx: i32,
    /// Floor of the longitude in half degrees.
    pub lon_idx: i32,
}

fn index_of(n: i64, precision: u8) -> (res: i32)
    ensures
        res == clamped(cell_index(n as int, precision as nat)),
{
    let twice: i128 = 2 * (n as i128);
    if precision >= 20 {
        proof {
            decimal::lemma_pow10_grows(precision as nat);
            let p = decimal::pow10(precision as nat) as int;
            let a = twice as int;
            if a >= 0 {
                assert(a / p == 0) by (nonlinear_arith)
                    requires
                        0 <= a < p,
                ;
            } else {
                assert(a / p == -1) by (nonlinear_arith)
                    requires
                        -p < a < 0,
                ;
            }
        }
        return if n >= 0 {
            0
        } else {
            -1
        };
    }
    let mut scale: i128 = 1;
    let mut k: u8 = 0;
    while k < precision
        invariant
            k <= precision < 20,
            scale == decimal::pow10(k as nat),
            scale <= 10_000_000_000_000_000_000,
        decreases precision - k,
    {
        proof {
            reveal_with_fuel(decimal::pow10, 20);
        }
        scale = scale * 10;
        k += 1;
    }
    proof {
        decimal::lemma_pow10_positive(precision as nat);
    }
    let floor: i128 = if twice >= 0 {
        twice / scale
    } else {
        proof {
            lemma_floor_of_negative(-twice as int, scale as int);
        }
        -((scale - 1 - twice) / scale)
    };
    if floor < i32::MIN as i128 {
        i32::MIN
    } else if floor > i32::MAX as i128 {
        i32::MAX
    } else {
        floor as i32
    }
}

/// Rounding a negative quotient down is rounding its magnitude up.
proof fn lemma_floor_of_negative(m: int, b: int)
    requires
        m > 0,
        b > 0,
    ensures
        (-m) / b == -((b - 1 + m) / b),
        0 < (b - 1 + m) / b <= m,
{
    let k = (b - 1 + m) / b;
    vstd::arithmetic::div_mod::lemma_fundamental_div_mod(b - 1 + m, b);
    let r = k * b - m;
    assert(0 <= r < b) by (nonlinear_arith)
        requires
            b - 1 + m == b * k + (b - 1 + m) % b,
            0 <= (b - 1 + m) % b < b,
            r == k * b - m,
    ;
    assert(-m == (-k) * b + r) by (nonlinear_arith)
        requires
            r == k * b - m,
    ;
    vstd::arithmetic::div_mod::lemma_fundamental_div_mod_converse(-m, b, -k, r);
    assert(0 < k <= m) by (nonlinear_arith)
        requires
            0 <= k * b - m < b,
            m > 0,
            b > 0,
    ;
}

/// Whether a cell's neighbors have indices of their own.
pub open spec fn has_neighbors(id: CellId) -> bool {
    i32::MIN < id.lat_idx < i32::MAX && i32::MIN < id.lon_idx < i32::MAX
}

/// The cell that lies `lat` cells north and `lon` cells east of a cell.
pub open spec fn shifted(id: CellId, lat: int, lon: int) -> CellId {
    CellId { lat_idx: (id.lat_idx + lat) as i32, lon_idx: (id.lon_idx + lon) as i32 }
}

/// The eight cells around a cell, row by row.
pub open spec fn neighbors_of(id: CellId) -> Seq<CellId> {
    seq![
        shifted(id, -1, -1),
        shifted(id, -1, 0),
        shifted(id, -1, 1),
        shifted(id, 0, -1),
        shifted(id, 0, 1),
        shifted(id, 1, -1),
        shifted(id, 1, 0),
        shifted(id, 1, 1),
    ]
}

impl CellId {
    /// The cell that a place lies in, with coordinates in units of
    /// `10^-precision` degrees.
    #[must_use]
    pub fn from_lat_lon(lat: i64, lon: i64, precision: u8) -> (res: Self)
        ensures
            res.lat_idx == clamped(cell_index(lat as int, precision as nat)),
            res.lon_idx == clamped(cell_index(lon as int, precision as nat)),
    {
        CellId { lat_idx: index_of(lat, precision), lon_idx: index_of(lon, precision) }
    }

    /// Center latitude of this cell, in quarter degrees.
    #[must_use]
    pub fn center_lat(self) -> (res: i64)
        ensures
            res == 2 * self.lat_idx + 1,
    {
        2 * (self.lat_idx as i64) + 1
    }

    /// Center longitude of this cell, in quarter degrees.
    #[must_use]
    pub fn center_lon(self) -> (res: i64)
        ensures
            res == 2 * self.lon_idx + 1,
    {
        2 * (self.lon_idx as i64) + 1
    }

    /// The eight orthogonal and diagonal neighbor cells.
    #[must_use]
    pub fn neighbors(self) -> (res: [CellId; 8])
        requires
            has_neighbors(self),
        ensures
            res@ == neighbors_of(self),
    {
        let CellId { lat_idx, lon_idx } = self;
        let res = [
            CellId { lat_idx: lat_idx - 1, lon_idx: lon_idx - 1 },
            CellId { lat_idx: lat_idx - 1, lon_idx },
            CellId { lat_idx: lat_idx - 1, lon_idx: lon_idx + 1 },
            CellId { lat_idx, lon_idx: lon_idx - 1 },
            CellId { lat_idx, lon_idx: lon_idx + 1 },
            CellId { lat_idx: lat_idx + 1, lon_idx: lon_idx - 1 },
            CellId { lat_idx: lat_idx + 1, lon_idx },
            CellId { lat_idx: lat_idx + 1, lon_idx: lon_idx + 1 },
        ];
        assert(res@ =~= neighbors_of(self));
        res
    }

    /// The cell as `lat_idx:lon_idx`.
    pub fn label(&self) -> (res: String)
        ensures
            res@ == text::signed_decimal(self.lat_idx as int) + ":"@ + text::signed_decimal(
                self.lon_idx as int,
            ),
    {
        text::write_signed(self.lat_idx as i64).concat(":").concat(
            &text::write_signed(self.lon_idx as i64),
        )
    }
}

// ---------------------------------------------------------------------------
// Rollup
// ---------------------------------------------------------------------------

/// Aggregated statistics for one geographic cell.
#[derive(Debug, Clone, PartialEq, Eq)]
pub struct CellStats {
    /// Stable cell identifier.
    pub cell_id: CellId,
    /// Center latitude of the cell, in quarter degrees.
    pub center_lat: i64,
    /// Center longitude of the cell, in quarter degrees.
    pub center_lon: i64,
    /// Total records whose shelter location falls in this cell.
    pub record_count: u64,
    /// Records with `IntakeType::Stray` or `IntakeType::FoundReport`.
    pub stray_count: u64,
    /// Number of distinct contributing sources.
    pub distinct_sources: u64,
    /// Timestamp of the most recently seen record in this cell.
    pub last_seen: Option<Timestamp>,
}

/// The cell that a record lies in, where it has both coordinates.
pub open spec fn cell_of(rec: PetRecordView) -> Option<CellId> {
    match rec.location {
        Some(loc) => match (loc.lat, loc.lon) {
            (Some(lat), Some(lon)) => Some(
                CellId {
                    lat_idx: clamped(cell_index(lat as int, loc.precision as nat)) as i32,
                    lon_idx: clamped(cell_index(lon as int, loc.precision as nat)) as i32,
                },
            ),
            _ => None,
        },
        None => None,
    }
}

/// Whether a record is of a stray.
pub open spec fn counts_as_stray(rec: PetRecordView) -> bool {
    rec.intake_type == IntakeType::Stray || rec.intake_type == IntakeType::FoundReport
}

/// How many records lie in a cell; with `None`, how many lie in none.
pub open spec fn count_in(recs: Seq<PetRecordView>, id: Option<CellId>) -> nat
    decreases recs.len(),
{
    if recs.len() == 0 {
        0
    } else {
        count_in(recs.drop_last(), id) + (if cell_of(recs.last()) == id {
            1nat
        } else {
            0nat
        })
    }
}

/// How many records of strays lie in a cell.
pub open spec fn strays_in(recs: Seq<PetRecordView>, id: CellId) -> nat
    decreases recs.len(),
{
    if recs.len() == 0 {
        0
    } else {
        strays_in(recs.drop_last(), id) + (if cell_of(recs.last()) == Some(id) && counts_as_stray(
            recs.last(),
        ) {
            1nat
        } else {
            0nat
        })
    }
}

/// The names of the sources that have records in a cell.
pub open spec fn sources_in(recs: Seq<PetRecordView>, id: CellId) -> Set<Seq<char>>
    decreases recs.len(),
{
    if recs.len() == 0 {
        Set::empty()
    } else {
        let before = sources_in(recs.drop_last(), id);
        if cell_of(recs.last()) == Some(id) {
            before.insert(recs.last().source.name)
        } else {
            before
        }
    }
}

/// When a record in a cell was last seen.
pub open spec fn latest_in(recs: Seq<PetRecordView>, id: CellId) -> Option<Moment>
    decreases recs.len(),
{
    if recs.len() == 0 {
        None
    } else {
        let before = latest_in(recs.drop_last(), id);
        let last = recs.last();
        if cell_of(last) != Some(id) {
            before
        } else if before is Some && before->0.after(last.last_seen) {
            before
        } else {
            Some(last.last_seen)
        }
    }
}

/// Whether statistics are those of the records in their cell.
pub open spec fn sums_up(c: CellStats, recs: Seq<PetRecordView>) -> bool {
    &&& c.center_lat == 2 * c.cell_id.lat_idx + 1
    &&& c.center_lon == 2 * c.cell_id.lon_idx + 1
    &&& c.record_count == count_in(recs, Some(c.cell_id))
    &&& c.record_count > 0
    &&& c.stray_count == strays_in(recs, c.cell_id)
    &&& c.distinct_sources == sources_in(recs, c.cell_id).len()
    &&& c.distinct_sources > 0
    &&& c.last_seen.deep_view() == latest_in(recs, c.cell_id)
}

/// Whether no cell stands twice in a row of statistics.
pub open spec fn distinct_cells(cells: Seq<CellStats>) -> bool {
    forall|i: int, j: int|
        0 <= i < j < cells.len() ==> (#[trigger] cells[i]).cell_id != (#[trigger] cells[j]).cell_id
}

/// The records of all cells together.
pub open spec fn total_records(cells: Seq<CellStats>) -> nat
    decreases cells.len(),
{
    if cells.len() == 0 {
        0
    } else {
        total_records(cells.drop_last()) + cells.last().record_count as nat
    }
}

/// Statistics of a cell that are still being gathered.
struct CellAccum {
    cell_id: CellId,
    record_count: u64,
    stray_count: u64,
    sources: Vec<String>,
    last_seen: Timestamp,
}

/// Whether what was gathered for a cell is what the records say.
spec fn gathered(a: CellAccum, recs: Seq<PetRecordView>) -> bool {
    &&& a.record_count == count_in(recs, Some(a.cell_id))
    &&& a.record_count > 0
    &&& a.stray_count == strays_in(recs, a.cell_id)
    &&& a.sources.deep_view().no_duplicates()
    &&& a.sources.deep_view().to_set() == sources_in(recs, a.cell_id)
    &&& a.sources.len() > 0
    &&& Some(a.last_seen@) == latest_in(recs, a.cell_id)
}

spec fn accum_total(accums: Seq<CellAccum>) -> nat
    decreases accums.len(),
{
    if accums.len() == 0 {
        0
    } else {
        accum_total(accums.drop_last()) + accums.last().record_count as nat
    }
}

proof fn lemma_count_bounds(recs: Seq<PetRecordView>, id: CellId)
    ensures
        count_in(recs, Some(id)) <= recs.len(),
        strays_in(recs, id) <= count_in(recs, Some(id)),
        count_in(recs, None) <= recs.len(),
        count_in(recs, Some(id)) == 0 ==> latest_in(recs, id) is None && sources_in(recs, id)
            == Set::<Seq<char>>::empty() && strays_in(recs, id) == 0,
    decreases recs.len(),
{
    if recs.len() > 0 {
        lemma_count_bounds(recs.drop_last(), id);
    }
}

/// Replacing one accumulator changes the total by the difference.
proof fn lemma_accum_update(accums: Seq<CellAccum>, i: int, a: CellAccum)
    requires
        0 <= i < accums.len(),
    ensures
        accum_total(accums.update(i, a)) == accum_total(accums) - accums[i].record_count
            + a.record_count,
    decreases accums.len(),
{
    let after = accums.update(i, a);
    if i == accums.len() - 1 {
        assert(after.drop_last() =~= accums.drop_last());
    } else {
        assert(after.drop_last() =~= accums.drop_last().update(i, a));
        lemma_accum_update(accums.drop_last(), i, a);
    }
}

fn add_source(sources: &mut Vec<String>, name: &String)
    requires
        old(sources).deep_view().no_duplicates(),
    ensures
        final(sources).deep_view().no_duplicates(),
        final(sources).deep_view().to_set() == old(sources).deep_view().to_set().insert(name@),
        final(sources).len() > 0,
{
    let mut i: usize = 0;
    while i < sources.len()
        invariant
            i <= sources.len(),
            *sources == *old(sources),
            old(sources).deep_view().no_duplicates(),
            forall|j: int| 0 <= j < i ==> #[trigger] sources.deep_view()[j] != name@,
        decreases sources.len() - i,
    {
        assert(sources.deep_view()[i as int] == sources@[i as int]@);
        if text::same(&sources[i], name) {
            assert(sources.deep_view().to_set().contains(name@)) by {
                assert(sources.deep_view().contains(name@));
            }
            assert(sources.deep_view().to_set() =~= sources.deep_view().to_set().insert(name@));
            return ;
        }
        i += 1;
    }
    let ghost before = sources.deep_view();
    sources.push(name.clone());
    proof {
        let after = sources.deep_view();
        assert(after =~= before.push(name@));
        assert(after.to_set() =~= before.to_set().insert(name@)) by {
            assert forall|x: Seq<char>| after.to_set().contains(x) == before.to_set().insert(
                name@,
            ).contains(x) by {
                if after.contains(x) {
                    let k = choose|k: int| 0 <= k < after.len() && after[k] == x;
                    if k < before.len() {
                        assert(before[k] == x);
                    }
                }
                if before.contains(x) {
                    let k = choose|k: int| 0 <= k < before.len() && before[k] == x;
                    assert(after[k] == x);
                }
                assert(after[before.len() as int] == name@);
            }
        }
    }
}

fn locate(rec: &PetRecord) -> (res: Option<CellId>)
    ensures
        res == cell_of(rec.deep_view()),
{
    match &rec.location {
        Some(loc) => match loc.lat {
            Some(lat) => match loc.lon {
                Some(lon) => Some(CellId::from_lat_lon(lat, lon, loc.precision)),
                None => None,
            },
            None => None,
        },
        None => None,
    }
}

fn find_accum(accums: &Vec<CellAccum>, id: CellId) -> (res: Option<usize>)
    ensures
        match res {
            Some(i) => i < accums.len() && accums@[i as int].cell_id == id,
            None => forall|i: int|
                0 <= i < accums.len() ==> (#[trigger] accums@[i]).cell_id != id,
        },
{
    let mut i: usize = 0;
    while i < accums.len()
        invariant
            i <= accums.len(),
            forall|j: int| 0 <= j < i ==> (#[trigger] accums@[j]).cell_id != id,
        decreases accums.len() - i,
    {
        if accums[i].cell_id == id {
            return Some(i);
        }
        i += 1;
    }
    None
}

/// Whether the accumulators hold what the records say, each cell once and every
/// cell that has records.
spec fn accums_match(accums: Seq<CellAccum>, recs: Seq<PetRecordView>) -> bool {
    &&& forall|i: int| 0 <= i < accums.len() ==> gathered(#[trigger] accums[i], recs)
    &&& forall|i: int, j: int|
        0 <= i < j < accums.len() ==> (#[trigger] accums[i]).cell_id != (
        #[trigger] accums[j]).cell_id
    &&& forall|id: CellId|
        #[trigger] count_in(recs, Some(id)) > 0 ==> exists|i: int|
            0 <= i < accums.len() && (#[trigger] accums[i]).cell_id == id
    &&& accum_total(accums) + count_in(recs, None) == recs.len()
}

fn take_in(accums: &mut Vec<CellAccum>, rec: &PetRecord, id: CellId, Ghost(recs): Ghost<
    Seq<PetRecordView>,
>)
    requires
        accums_match(old(accums)@, recs),
        cell_of(rec.deep_view()) == Some(id),
        recs.len() < u64::MAX,
    ensures
        accums_match(final(accums)@, recs.push(rec.deep_view())),
{
    let stray = match rec.intake_type {
        IntakeType::Stray => true,
        IntakeType::FoundReport => true,
        _ => false,
    };
    let ghost view = rec.deep_view();
    let ghost after = recs.push(view);
    let ghost before = accums@;
    proof {
        assert(after.drop_last() =~= recs);
        assert forall|k: CellId| k != id implies #[trigger] count_in(after, Some(k)) == count_in(
            recs,
            Some(k),
        ) && strays_in(after, k) == strays_in(recs, k) && sources_in(after, k) == sources_in(
            recs,
            k,
        ) && latest_in(after, k) == latest_in(recs, k) by {}
        lemma_count_bounds(recs, id);
        assert(count_in(after, None) == count_in(recs, None));
        assert(count_in(after, Some(id)) == count_in(recs, Some(id)) + 1);
    }
    match find_accum(accums, id) {
        Some(i) => {
            let a = &accums[i];
            assert(gathered(before[i as int], recs));
            let mut sources = a.sources.clone();
            assert(sources.deep_view() =~= a.sources.deep_view());
            add_source(&mut sources, &rec.source.name);
            let updated = CellAccum {
                cell_id: id,
                record_count: a.record_count + 1,
                stray_count: if stray {
                    a.stray_count + 1
                } else {
                    a.stray_count
                },
                sources,
                last_seen: a.last_seen.later_of(rec.last_seen),
            };
            proof {
                lemma_accum_update(before, i as int, updated);
                assert(gathered(updated, after));
            }
            accums.set(i, updated);
            proof {
                let now = accums@;
                assert forall|j: int| 0 <= j < now.len() implies gathered(
                    #[trigger] now[j],
                    after,
                ) by {
                    if j != i {
                        assert(now[j] == before[j]);
                        assert(gathered(before[j], recs));
                        assert(now[j].cell_id != id) by {
                            if j < i {
                                assert(before[j].cell_id != before[i as int].cell_id);
                            } else {
                                assert(before[i as int].cell_id != before[j].cell_id);
                            }
                        }
                        assert(count_in(after, Some(now[j].cell_id)) == count_in(
                            recs,
                            Some(now[j].cell_id),
                        ));
                    }
                }
                assert forall|j: int, k: int| 0 <= j < k < now.len() implies (
                #[trigger] now[j]).cell_id != (#[trigger] now[k]).cell_id by {
                    assert(before[j].cell_id != before[k].cell_id);
                }
                assert forall|c: CellId| #[trigger] count_in(after, Some(c)) > 0 implies exists|
                    j: int,
                | 0 <= j < now.len() && (#[trigger] now[j]).cell_id == c by {
                    if c == id {
                        assert(now[i as int].cell_id == c);
                    } else {
                        assert(count_in(recs, Some(c)) > 0);
                        let j = choose|j: int|
                            0 <= j < before.len() && (#[trigger] before[j]).cell_id == c;
                        assert(now[j].cell_id == c);
                    }
                }
            }
        },
        None => {
            proof {
                if count_in(recs, Some(id)) > 0 {
                    let j = choose|j: int|
                        0 <= j < before.len() && (#[trigger] before[j]).cell_id == id;
                    assert(false);
                }
            }
            let mut sources: Vec<String> = Vec::new();
            assert(sources.deep_view() =~= Seq::empty());
            assert(sources.deep_view().to_set() =~= Set::empty());
            add_source(&mut sources, &rec.source.name);
            let fresh = CellAccum {
                cell_id: id,
                record_count: 1,
                stray_count: if stray {
                    1
                } else {
                    0
                },
                sources,
                last_seen: rec.last_seen,
            };
            assert(gathered(fresh, after));
            accums.push(fresh);
            proof {
                let now = accums@;
                assert(now.drop_last() =~= before);
                assert forall|j: int| 0 <= j < now.len() implies gathered(
                    #[trigger] now[j],
                    after,
                ) by {
                    if j < before.len() {
                        assert(now[j] == before[j]);
                        assert(gathered(before[j], recs));
                        assert(count_in(after, Some(now[j].cell_id)) == count_in(
                            recs,
                            Some(now[j].cell_id),
                        ));
                    }
                }
                assert forall|j: int, k: int| 0 <= j < k < now.len() implies (
                #[trigger] now[j]).cell_id != (#[trigger] now[k]).cell_id by {
                    assert(now[j] == before[j]);
                    if k < before.len() {
                        assert(before[j].cell_id != before[k].cell_id);
                    }
                }
                assert forall|c: CellId| #[trigger] count_in(after, Some(c)) > 0 implies exists|
                    j: int,
                | 0 <= j < now.len() && (#[trigger] now[j]).cell_id == c by {
                    if c == id {
                        assert(now[before.len() as int].cell_id == c);
                    } else {
                        assert(count_in(recs, Some(c)) > 0);
                        let j = choose|j: int|
                            0 <= j < before.len() && (#[trigger] before[j]).cell_id == c;
                        assert(now[j].cell_id == c);
                    }
                }
            }
        },
    }
}

/// Rolls records up into per-cell statistics. Records without both coordinates
/// are counted apart, not dropped.
#[must_use]
pub fn rollup_records(records: &Vec<PetRecord>) -> (res: (Vec<CellStats>, u64))
    ensures
        distinct_cells(res.0@),
        forall|i: int|
            0 <= i < res.0.len() ==> sums_up(#[trigger] res.0@[i], records.deep_view()),
        forall|id: CellId|
            #[trigger] count_in(records.deep_view(), Some(id)) > 0 ==> exists|i: int|
                0 <= i < res.0.len() && (#[trigger] res.0@[i]).cell_id == id,
        res.1 == count_in(records.deep_view(), None),
        total_records(res.0@) + res.1 == records.len(),
{
    let mut accums: Vec<CellAccum> = Vec::new();
    let mut ungeocoded: u64 = 0;
    let ghost all = records.deep_view();
    let mut i: usize = 0;
    assert(all.take(0) =~= Seq::empty());
    while i < records.len()
        invariant
            i <= records.len(),
            all == records.deep_view(),
            accums_match(accums@, all.take(i as int)),
            ungeocoded == count_in(all.take(i as int), None),
            ungeocoded <= i,
        decreases records.len() - i,
    {
        let rec = &records[i];
        proof {
            assert(all.take(i + 1) =~= all.take(i as int).push(rec.deep_view()));
            assert(all.take(i + 1).drop_last() =~= all.take(i as int));
        }
        match locate(rec) {
            Some(id) => {
                take_in(&mut accums, rec, id, Ghost(all.take(i as int)));
            },
            None => {
                ungeocoded = ungeocoded + 1;
                proof {
                    let before = all.take(i as int);
                    let after = all.take(i + 1);
                    assert forall|k: CellId| #[trigger] count_in(after, Some(k)) == count_in(
                        before,
                        Some(k),
                    ) && strays_in(after, k) == strays_in(before, k) && sources_in(after, k)
                        == sources_in(before, k) && latest_in(after, k) == latest_in(
                        before,
                        k,
                    ) by {}
                    assert forall|j: int| 0 <= j < accums.len() implies gathered(
                        #[trigger] accums@[j],
                        after,
                    ) by {
                        assert(gathered(accums@[j], before));
                        assert(count_in(after, Some(accums@[j].cell_id)) == count_in(
                            before,
                            Some(accums@[j].cell_id),
                        ));
                    }
                    assert forall|c: CellId| #[trigger] count_in(after, Some(c))
                        > 0 implies exists|j: int|
                        0 <= j < accums.len() && (#[trigger] accums@[j]).cell_id == c by {
                        assert(count_in(before, Some(c)) > 0);
                    }
                }
            },
        }
        i += 1;
    }
    proof {
        assert(all.take(records.len() as int) =~= all);
    }
    let mut cells: Vec<CellStats> = Vec::new();
    let mut k: usize = 0;
    assert(accums@.take(0) =~= Seq::empty());
    while k < accums.len()
        invariant
            k == cells.len() <= accums.len(),
            accums_match(accums@, all),
            total_records(cells@) == accum_total(accums@.take(k as int)),
            forall|j: int| 0 <= j < k ==> (#[trigger] cells@[j]).cell_id == accums@[j].cell_id,
            forall|j: int| 0 <= j < k ==> sums_up(#[trigger] cells@[j], all),
        decreases accums.len() - k,
    {
        let a = &accums[k];
        proof {
            assert(gathered(accums@[k as int], all));
            a.sources.deep_view().unique_seq_to_set();
            assert(accums@.take(k + 1).drop_last() =~= accums@.take(k as int));
        }
        let c = CellStats {
            cell_id: a.cell_id,
            center_lat: a.cell_id.center_lat(),
            center_lon: a.cell_id.center_lon(),
            record_count: a.record_count,
            stray_count: a.stray_count,
            distinct_sources: a.sources.len() as u64,
            last_seen: Some(a.last_seen),
        };
        let ghost before = cells@;
        cells.push(c);
        proof {
            assert(cells@.drop_last() =~= before);
            assert(sums_up(c, all));
        }
        k += 1;
    }
    proof {
        assert(accums@.take(accums.len() as int) =~= accums@);
        assert forall|x: int, y: int| 0 <= x < y < cells.len() implies (
        #[trigger] cells@[x]).cell_id != (#[trigger] cells@[y]).cell_id by {
            assert(accums@[x].cell_id != accums@[y].cell_id);
        }
        assert forall|id: CellId| #[trigger] count_in(all, Some(id)) > 0 implies exists|j: int|
            0 <= j < cells.len() && (#[trigger] cells@[j]).cell_id == id by {
            let j = choose|j: int| 0 <= j < accums.len() && (#[trigger] accums@[j]).cell_id == id;
            assert(cells@[j].cell_id == id);
        }
    }
    (cells, ungeocoded)
}

// ---------------------------------------------------------------------------
// Holes
// ---------------------------------------------------------------------------

/// The documented gaps: metros that are known to have no feed.
pub const DOCUMENTED_GAPS: [&'static str; 5] = [
    "Los Angeles, CA",
    "New York, NY",
    "Chicago, IL",
    "Houston, TX",
    "Phoenix, AZ",
];

/// The latitude of each documented gap's center, in hundredths of a degree.
pub const GAP_LATS: [i64; 5] = [3405, 4071, 4185, 2976, 3345];

/// The longitude of each documented gap's center, in hundredths of a degree.
pub const GAP_LONS: [i64; 5] = [-11825, -7401, -8765, -9537, -11207];

/// How many records a cell must have at least to count as a population signal.
pub const MIN_RECORDS_THRESHOLD: u64 = 1;

/// A detected geographic coverage hole: a populated region with no feed.
#[derive(Debug, Clone, PartialEq, Eq)]
pub struct GeoHole {
    /// The cell that appears under-covered.
    pub cell_id: CellId,
    /// Center latitude of the hole cell, in quarter degrees.
    pub center_lat: i64,
    /// Center longitude of the hole cell, in quarter degrees.
    pub center_lon: i64,
    /// How many records of the cell and its neighbors suggest that this area
    /// should have coverage.
    pub estimated_missed_population: u64,
    /// Human-readable name for this hole, if it is a documented gap.
    pub name: Option<String>,
    /// How the hole was detected. Always `"estimated"`.
    pub basis: String,
}

/// The model of a [`GeoHole`].
pub struct GeoHoleView {
    /// The cell that appears under-covered.
    pub cell_id: CellId,
    /// Center latitude, in quarter degrees.
    pub center_lat: int,
    /// Center longitude, in quarter degrees.
    pub center_lon: int,
    /// Estimated missed population.
    pub estimated_missed_population: nat,
    /// Name of the documented gap.
    pub name: Option<Seq<char>>,
    /// How the hole was detected.
    pub basis: Seq<char>,
}

impl DeepView for GeoHole {
    type V = GeoHoleView;

    open spec fn deep_view(&self) -> GeoHoleView {
        GeoHoleView {
            cell_id: self.cell_id,
            center_lat: self.center_lat as int,
            center_lon: self.center_lon as int,
            estimated_missed_population: self.estimated_missed_population as nat,
            name: self.name.deep_view(),
            basis: self.basis@,
        }
    }
}

impl Ranked for GeoHole {
    open spec fn above(self, other: Self) -> bool {
        self.estimated_missed_population > other.estimated_missed_population
    }

    fn is_above(&self, other: &Self) -> bool {
        self.estimated_missed_population > other.estimated_missed_population
    }

    proof fn above_is_strict(a: Self) {
    }

    proof fn above_is_transitive(a: Self, b: Self, c: Self) {
    }

    proof fn ties_are_transitive(a: Self, b: Self, c: Self) {
    }
}

/// The statistics of a cell; the last, where it has several.
pub open spec fn entry_at(cells: Seq<CellStats>, id: CellId) -> Option<CellStats>
    decreases cells.len(),
{
    if cells.len() == 0 {
        None
    } else if cells.last().cell_id == id {
        Some(cells.last())
    } else {
        entry_at(cells.drop_last(), id)
    }
}

/// The records in a cell.
pub open spec fn records_at(cells: Seq<CellStats>, id: CellId) -> nat {
    match entry_at(cells, id) {
        Some(c) => c.record_count as nat,
        None => 0,
    }
}

/// Whether a source covers a cell.
pub open spec fn covered(cells: Seq<CellStats>, id: CellId) -> bool {
    match entry_at(cells, id) {
        Some(c) => c.distinct_sources > 0,
        None => false,
    }
}

/// The records in several cells together.
pub open spec fn records_in_all(cells: Seq<CellStats>, ids: Seq<CellId>) -> nat
    decreases ids.len(),
{
    if ids.len() == 0 {
        0
    } else {
        records_in_all(cells, ids.drop_last()) + records_at(cells, ids.last())
    }
}

/// The records in the cells around a cell.
pub open spec fn records_around(cells: Seq<CellStats>, id: CellId) -> nat {
    records_in_all(cells, neighbors_of(id))
}

/// The cell of a documented gap.
pub open spec fn gap_cell(k: int) -> CellId {
    CellId {
        lat_idx: clamped(cell_index(GAP_LATS@[k] as int, 2)) as i32,
        lon_idx: clamped(cell_index(GAP_LONS@[k] as int, 2)) as i32,
    }
}

/// A hole in a cell.
pub open spec fn hole_in(id: CellId, estimated: nat, name: Option<Seq<char>>) -> GeoHoleView {
    GeoHoleView {
        cell_id: id,
        center_lat: 2 * id.lat_idx + 1,
        center_lon: 2 * id.lon_idx + 1,
        estimated_missed_population: estimated,
        name,
        basis: "estimated"@,
    }
}

/// The first `k` documented gaps that no source covers.
pub open spec fn open_gaps(cells: Seq<CellStats>, k: nat) -> Seq<GeoHoleView>
    decreases k,
{
    if k == 0 {
        Seq::empty()
    } else {
        let before = open_gaps(cells, (k - 1) as nat);
        let id = gap_cell(k - 1);
        if covered(cells, id) {
            before
        } else {
            before.push(
                hole_in(
                    id,
                    records_around(cells, id) + records_at(cells, id),
                    Some(DOCUMENTED_GAPS@[k - 1]@),
                ),
            )
        }
    }
}

/// Whether a hole in a cell is listed.
pub open spec fn listed(holes: Seq<GeoHoleView>, id: CellId) -> bool {
    exists|i: int| 0 <= i < holes.len() && (#[trigger] holes[i]).cell_id == id
}

/// Whether a cell without a source has records, or lies among cells that have.
pub open spec fn orphaned(cells: Seq<CellStats>, c: CellStats) -> bool {
    c.distinct_sources == 0 && (c.record_count >= MIN_RECORDS_THRESHOLD || records_around(
        cells,
        c.cell_id,
    ) >= MIN_RECORDS_THRESHOLD)
}

/// The open documented gaps, then the orphaned ones among the first `n` cells
/// that are not listed yet.
pub open spec fn holes_among(cells: Seq<CellStats>, n: nat) -> Seq<GeoHoleView>
    decreases n,
{
    if n == 0 {
        open_gaps(cells, 5)
    } else {
        let before = holes_among(cells, (n - 1) as nat);
        let c = cells[n - 1];
        if orphaned(cells, c) && !listed(before, c.cell_id) {
            before.push(
                hole_in(
                    c.cell_id,
                    c.record_count as nat + records_around(cells, c.cell_id),
                    None,
                ),
            )
        } else {
            before
        }
    }
}

/// The coverage holes in a map of cells.
pub open spec fn holes_of(cells: Seq<CellStats>) -> Seq<GeoHoleView> {
    holes_among(cells, cells.len())
}

/// What a row of holes says.
pub open spec fn hole_views(holes: Seq<GeoHole>) -> Seq<GeoHoleView> {
    holes.map_values(|h: GeoHole| h.deep_view())
}

/// Whether the holes of a map can be found: the cells without a source have
/// neighbors, and the estimates for them and for the open gaps are counts.
pub open spec fn searchable(cells: Seq<CellStats>) -> bool {
    &&& forall|k: int|
        0 <= k < 5 && !covered(cells, #[trigger] gap_cell(k)) ==> records_around(
            cells,
            gap_cell(k),
        ) + records_at(cells, gap_cell(k)) <= u64::MAX
    &&& forall|i: int|
        0 <= i < cells.len() && (#[trigger] cells[i]).distinct_sources == 0 ==> has_neighbors(
            cells[i].cell_id,
        ) && cells[i].record_count + records_around(cells, cells[i].cell_id) <= u64::MAX
}

proof fn lemma_one_more_cell(cells: Seq<CellStats>, ids: Seq<CellId>)
    requires
        cells.len() > 0,
        ids.no_duplicates(),
    ensures
        records_in_all(cells, ids) <= records_in_all(cells.drop_last(), ids) + (if ids.contains(
            cells.last().cell_id,
        ) {
            cells.last().record_count as nat
        } else {
            0
        }),
    decreases ids.len(),
{
    if ids.len() > 0 {
        let front = ids.drop_last();
        let id = cells.last().cell_id;
        lemma_one_more_cell(cells, front);
        if front.contains(id) {
            let j = choose|j: int| 0 <= j < front.len() && front[j] == id;
            assert(ids[j] == id);
            assert(ids.contains(id));
            assert(ids.last() != id);
        }
        if ids.last() == id {
            assert(ids.contains(id));
        }
    }
}

/// Distinct cells together have no more records than all cells.
proof fn lemma_part_of_total(cells: Seq<CellStats>, ids: Seq<CellId>)
    requires
        ids.no_duplicates(),
    ensures
        records_in_all(cells, ids) <= total_records(cells),
    decreases cells.len(),
{
    if cells.len() == 0 {
        lemma_nothing_in_no_cells(cells, ids);
    } else {
        lemma_part_of_total(cells.drop_last(), ids);
        lemma_one_more_cell(cells, ids);
    }
}

proof fn lemma_nothing_in_no_cells(cells: Seq<CellStats>, ids: Seq<CellId>)
    requires
        cells.len() == 0,
    ensures
        records_in_all(cells, ids) == 0,
    decreases ids.len(),
{
    if ids.len() > 0 {
        lemma_nothing_in_no_cells(cells, ids.drop_last());
    }
}

/// A cell and distinct others have no more records than all cells.
proof fn lemma_cell_and_others(cells: Seq<CellStats>, k: int, ids: Seq<CellId>)
    requires
        ids.no_duplicates(),
        0 <= k < cells.len(),
        !ids.contains(cells[k].cell_id),
    ensures
        cells[k].record_count + records_in_all(cells, ids) <= total_records(cells),
    decreases cells.len(),
{
    lemma_one_more_cell(cells, ids);
    if k == cells.len() - 1 {
        lemma_part_of_total(cells.drop_last(), ids);
    } else {
        assert(cells.drop_last()[k] == cells[k]);
        lemma_cell_and_others(cells.drop_last(), k, ids);
    }
}

/// The eight neighbors of a cell are distinct, and the cell is none of them.
pub proof fn neighbors_are_distinct(id: CellId)
    requires
        has_neighbors(id),
    ensures
        neighbors_of(id).no_duplicates(),
        !neighbors_of(id).contains(id),
{
}

/// Being neighbors is mutual.
pub proof fn neighbors_are_mutual(a: CellId, b: CellId)
    requires
        has_neighbors(a),
        has_neighbors(b),
        neighbors_of(a).contains(b),
    ensures
        neighbors_of(b).contains(a),
{
    let i = choose|i: int| 0 <= i < 8 && neighbors_of(a)[i] == b;
    assert(neighbors_of(b)[7 - i] == a);
}

fn entry<'a>(cells: &'a Vec<CellStats>, id: CellId) -> (res: Option<&'a CellStats>)
    ensures
        match res {
            Some(c) => entry_at(cells@, id) == Some(*c),
            None => entry_at(cells@, id) is None,
        },
{
    let mut i: usize = cells.len();
    assert(cells@.take(i as int) =~= cells@);
    while i > 0
        invariant
            i <= cells.len(),
            entry_at(cells@, id) == entry_at(cells@.take(i as int), id),
        decreases i,
    {
        i -= 1;
        assert(cells@.take(i + 1).drop_last() =~= cells@.take(i as int));
        if cells[i].cell_id == id {
            return Some(&cells[i]);
        }
    }
    None
}

fn count_at(cells: &Vec<CellStats>, id: CellId) -> (res: u64)
    ensures
        res == records_at(cells@, id),
{
    match entry(cells, id) {
        Some(c) => c.record_count,
        None => 0,
    }
}

/// The first of several cells have no more records than all of them.
proof fn lemma_first_of_all(cells: Seq<CellStats>, ids: Seq<CellId>, n: int)
    requires
        0 <= n <= ids.len(),
    ensures
        records_in_all(cells, ids.take(n)) <= records_in_all(cells, ids),
    decreases ids.len() - n,
{
    if n < ids.len() {
        assert(ids.take(n + 1).drop_last() =~= ids.take(n));
        lemma_first_of_all(cells, ids, n + 1);
    } else {
        assert(ids.take(n) =~= ids);
    }
}

/// The holes of a map can be found where all its records can be counted.
proof fn lemma_countable_maps_are_searchable(cells: Seq<CellStats>)
    requires
        total_records(cells) <= u64::MAX,
        forall|i: int|
            0 <= i < cells.len() && (#[trigger] cells[i]).distinct_sources == 0 ==> has_neighbors(
                cells[i].cell_id,
            ),
    ensures
        searchable(cells),
{
    assert forall|k: int| 0 <= k < 5 && !covered(cells, #[trigger] gap_cell(k)) implies
        records_around(cells, gap_cell(k)) + records_at(cells, gap_cell(k)) <= u64::MAX by {
        let id = gap_cell(k);
        lemma_gap_cell(k);
        neighbors_are_distinct(id);
        let ids = neighbors_of(id).push(id);
        assert(ids.drop_last() =~= neighbors_of(id));
        lemma_part_of_total(cells, ids);
    }
    assert forall|i: int|
        0 <= i < cells.len() && (#[trigger] cells[i]).distinct_sources == 0 implies has_neighbors(
        cells[i].cell_id,
    ) && cells[i].record_count + records_around(cells, cells[i].cell_id) <= u64::MAX by {
        neighbors_are_distinct(cells[i].cell_id);
        lemma_cell_and_others(cells, i, neighbors_of(cells[i].cell_id));
    }
}

fn count_around(cells: &Vec<CellStats>, id: CellId) -> (res: u64)
    requires
        has_neighbors(id),
        records_around(cells@, id) <= u64::MAX,
    ensures
        res == records_around(cells@, id),
{
    let around = id.neighbors();
    let ghost ids = neighbors_of(id);
    let mut sum: u64 = 0;
    let mut i: usize = 0;
    assert(ids.take(0) =~= Seq::empty());
    while i < 8
        invariant
            i <= 8,
            around@ == ids,
            ids.len() == 8,
            records_in_all(cells@, ids) <= u64::MAX,
            sum == records_in_all(cells@, ids.take(i as int)),
        decreases 8 - i,
    {
        proof {
            assert(ids.take(i + 1).drop_last() =~= ids.take(i as int));
            assert(ids.take(i + 1).last() == ids[i as int]);
            lemma_first_of_all(cells@, ids, i + 1);
        }
        sum = sum + count_at(cells, around[i]);
        i += 1;
    }
    assert(ids.take(8) =~= ids);
    sum
}

fn hole(id: CellId, estimated: u64, name: Option<String>) -> (res: GeoHole)
    ensures
        res.deep_view() == hole_in(id, estimated as nat, name.deep_view()),
{
    GeoHole {
        cell_id: id,
        center_lat: id.center_lat(),
        center_lon: id.center_lon(),
        estimated_missed_population: estimated,
        name,
        basis: "estimated".to_owned(),
    }
}

fn is_listed(holes: &Vec<GeoHole>, id: CellId) -> (res: bool)
    ensures
        res == listed(hole_views(holes@), id),
{
    let mut i: usize = 0;
    while i < holes.len()
        invariant
            i <= holes.len(),
            forall|j: int| 0 <= j < i ==> (#[trigger] hole_views(holes@)[j]).cell_id != id,
        decreases holes.len() - i,
    {
        assert(hole_views(holes@)[i as int] == holes@[i as int].deep_view());
        if holes[i].cell_id == id {
            return true;
        }
        i += 1;
    }
    false
}

/// The cells of the documented gaps lie inland of the index range.
proof fn lemma_gap_cell(k: int)
    requires
        0 <= k < 5,
    ensures
        has_neighbors(gap_cell(k)),
{
    reveal_with_fuel(decimal::pow10, 3);
    assert(decimal::pow10(2) == 100);
}

/// Detects coverage holes in a map of cells.
///
/// A cell is a hole if it is a documented gap that no source covers, or if it is
/// in the map without a source and it or its neighbors have records. The holes
/// are ranked by estimated missed population, the greatest first.
#[must_use]
pub fn detect_holes(cells: &Vec<CellStats>) -> (res: Vec<GeoHole>)
    requires
        searchable(cells@),
    ensures
        exists|found: Seq<GeoHole>|
            hole_views(found) == holes_of(cells@) && res@ == #[trigger] rank::ranking(found),
        rank::in_order(res@),
        forall|i: int, j: int|
            0 <= i < j < res.len() ==> (#[trigger] res@[i]).estimated_missed_population >= (
            #[trigger] res@[j]).estimated_missed_population,
{
    let mut holes: Vec<GeoHole> = Vec::new();
    let mut k: usize = 0;
    assert(hole_views(holes@) =~= open_gaps(cells@, 0));
    while k < 5
        invariant
            k <= 5,
            searchable(cells@),
            hole_views(holes@) == open_gaps(cells@, k as nat),
        decreases 5 - k,
    {
        let id = CellId::from_lat_lon(GAP_LATS[k], GAP_LONS[k], 2);
        assert(id == gap_cell(k as int));
        let has_coverage = match entry(cells, id) {
            Some(c) => c.distinct_sources > 0,
            None => false,
        };
        if !has_coverage {
            proof {
                lemma_gap_cell(k as int);
            }
            let estimated: u64 = count_around(cells, id) + count_at(cells, id);
            let ghost before = holes@;
            let found = hole(id, estimated, Some(DOCUMENTED_GAPS[k].to_owned()));
            holes.push(found);
            assert(hole_views(holes@) =~= hole_views(before).push(found.deep_view()));
        }
        k += 1;
    }
    let mut n: usize = 0;
    while n < cells.len()
        invariant
            n <= cells.len(),
            searchable(cells@),
            hole_views(holes@) == holes_among(cells@, n as nat),
        decreases cells.len() - n,
    {
        let c = &cells[n];
        let id = c.cell_id;
        if c.distinct_sources == 0 {
            let around = count_around(cells, id);
            if (c.record_count >= MIN_RECORDS_THRESHOLD || around >= MIN_RECORDS_THRESHOLD)
                && !is_listed(&holes, id) {
                let ghost before = holes@;
                let found = hole(id, c.record_count + around, None);
                holes.push(found);
                assert(hole_views(holes@) =~= hole_views(before).push(found.deep_view()));
            }
        }
        n += 1;
    }
    let ghost found = holes@;
    let res = rank::rank(holes);
    proof {
        rank::ranking_is_sorted(found);
        assert(res@ == rank::ranking(found));
    }
    res
}

// ---------------------------------------------------------------------------
// Extension of the coverage report
// ---------------------------------------------------------------------------

/// What geography adds to a coverage report.
#[derive(Debug, Clone, PartialEq, Eq)]
pub struct GeoCoverageExtension {
    /// Per-cell statistics.
    pub cells: Vec<CellStats>,
    /// Detected coverage holes, ranked by estimated missed population.
    pub geo_holes: Vec<GeoHole>,
    /// Count of records without coordinates.
    pub ungeocoded: u64,
}

/// The cells with at least so many records.
pub open spec fn cells_with(cells: Seq<CellStats>, min_count: int) -> Seq<CellStats>
    decreases cells.len(),
{
    if cells.len() == 0 {
        Seq::empty()
    } else {
        let before = cells_with(cells.drop_last(), min_count);
        if cells.last().record_count >= min_count {
            before.push(cells.last())
        } else {
            before
        }
    }
}

/// Whether a row of cells is what records roll up to.
pub open spec fn rolls_up(cells: Seq<CellStats>, recs: Seq<PetRecordView>) -> bool {
    &&& distinct_cells(cells)
    &&& forall|i: int| 0 <= i < cells.len() ==> sums_up(#[trigger] cells[i], recs)
    &&& forall|id: CellId|
        #[trigger] count_in(recs, Some(id)) > 0 ==> exists|i: int|
            0 <= i < cells.len() && (#[trigger] cells[i]).cell_id == id
}

/// Leaving small cells out leaves no more records, and keeps what holds of each
/// cell.
proof fn lemma_cells_with(cells: Seq<CellStats>, min_count: int)
    ensures
        total_records(cells_with(cells, min_count)) <= total_records(cells),
        forall|i: int|
            0 <= i < cells_with(cells, min_count).len() ==> cells.contains(
                #[trigger] cells_with(cells, min_count)[i],
            ),
    decreases cells.len(),
{
    if cells.len() > 0 {
        let front = cells.drop_last();
        let before = cells_with(front, min_count);
        let after = cells_with(cells, min_count);
        lemma_cells_with(front, min_count);
        if cells.last().record_count >= min_count {
            assert(after.drop_last() =~= before);
        }
        assert forall|i: int| 0 <= i < after.len() implies cells.contains(#[trigger] after[i]) by {
            if i < before.len() {
                assert(after[i] == before[i]);
                let j = choose|j: int| 0 <= j < front.len() && front[j] == before[i];
                assert(cells[j] == after[i]);
            } else {
                assert(cells[cells.len() - 1] == after[i]);
            }
        }
    }
}

/// Whether an extension is what records make it: their cells with at least
/// `min_count` records, the holes among those, and the records without
/// coordinates.
pub open spec fn extends(
    ext: GeoCoverageExtension,
    recs: Seq<PetRecordView>,
    min_count: int,
) -> bool {
    &&& exists|cells: Seq<CellStats>| #[trigger]
        rolls_up(cells, recs) && ext.cells@ == cells_with(cells, min_count)
    &&& exists|found: Seq<GeoHole>|
        hole_views(found) == holes_of(ext.cells@) && ext.geo_holes@ == #[trigger] rank::ranking(
            found,
        )
    &&& rank::in_order(ext.geo_holes@)
    &&& ext.ungeocoded == count_in(recs, None)
}

/// Rolls the records of a store up, leaves out the cells with fewer than
/// `min_count` records, and detects the holes among the rest.
pub fn build_geo_extension(records: &Vec<PetRecord>, min_count: u64) -> (res: GeoCoverageExtension)
    ensures
        extends(res, records.deep_view(), min_count as int),
{
    let (all, ungeocoded) = rollup_records(records);
    assert(rolls_up(all@, records.deep_view()));
    let mut cells: Vec<CellStats> = Vec::new();
    let mut i: usize = 0;
    assert(all@.take(0) =~= Seq::empty());
    while i < all.len()
        invariant
            i <= all.len(),
            cells@ == cells_with(all@.take(i as int), min_count as int),
        decreases all.len() - i,
    {
        assert(all@.take(i + 1).drop_last() =~= all@.take(i as int));
        let c = &all[i];
        if c.record_count >= min_count {
            cells.push(
                CellStats {
                    cell_id: c.cell_id,
                    center_lat: c.center_lat,
                    center_lon: c.center_lon,
                    record_count: c.record_count,
                    stray_count: c.stray_count,
                    distinct_sources: c.distinct_sources,
                    last_seen: c.last_seen,
                },
            );
        }
        i += 1;
    }
    proof {
        assert(all@.take(all.len() as int) =~= all@);
        lemma_cells_with(all@, min_count as int);
        assert forall|j: int| 0 <= j < cells.len() implies (
        #[trigger] cells@[j]).distinct_sources > 0 by {
            let k = choose|k: int| 0 <= k < all.len() && all@[k] == cells@[j];
            assert(sums_up(all@[k], records.deep_view()));
        }
        lemma_countable_maps_are_searchable(cells@);
    }
    let geo_holes = detect_holes(&cells);
    GeoCoverageExtension { cells, geo_holes, ungeocoded }
}

// ---------------------------------------------------------------------------
// Laws
// ---------------------------------------------------------------------------

/// Every record counts once: in the cell it lies in, or as ungeocoded.
pub proof fn every_record_counts_once(rec: PetRecordView, recs: Seq<PetRecordView>, id: CellId)
    ensures
        count_in(recs.push(rec), Some(id)) == count_in(recs, Some(id)) + (if cell_of(rec) == Some(
            id,
        ) {
            1int
        } else {
            0
        }),
        count_in(recs.push(rec), None) == count_in(recs, None) + (if cell_of(rec) is None {
            1int
        } else {
            0
        }),
{
    assert(recs.push(rec).drop_last() =~= recs);
}

/// A place lies in the cell whose half degree holds it, for coordinates that an
/// `i32` can index.
pub proof fn places_lie_in_their_cell(n: int, precision: nat)
    ensures
        cell_index(n, precision) * decimal::pow10(precision) <= CELLS_PER_DEGREE * n,
        CELLS_PER_DEGREE * n < (cell_index(n, precision) + 1) * decimal::pow10(precision),
{
    decimal::lemma_pow10_positive(precision);
    let a = CELLS_PER_DEGREE * n;
    let b = decimal::pow10(precision) as int;
    vstd::arithmetic::div_mod::lemma_fundamental_div_mod(a, b);
    assert((a / b) * b <= a < (a / b + 1) * b) by (nonlinear_arith)
        requires
            b > 0,
            a == b * (a / b) + a % b,
            0 <= a % b < b,
    ;
}

/// The documented gaps that no source covers are holes, under their names.
pub proof fn open_gaps_are_holes(cells: Seq<CellStats>, k: int)
    requires
        0 <= k < 5,
        !covered(cells, gap_cell(k)),
    ensures
        exists|i: int|
            0 <= i < holes_of(cells).len() && (#[trigger] holes_of(cells)[i]).cell_id == gap_cell(k)
                && holes_of(cells)[i].name == Some(DOCUMENTED_GAPS@[k]@),
{
    lemma_gap_listed(cells, k, 5);
    let i = choose|i: int|
        0 <= i < open_gaps(cells, 5).len() && (#[trigger] open_gaps(cells, 5)[i]).cell_id
            == gap_cell(k) && open_gaps(cells, 5)[i].name == Some(DOCUMENTED_GAPS@[k]@);
    lemma_gaps_stay(cells, cells.len());
    assert(holes_of(cells)[i] == open_gaps(cells, 5)[i]);
}

proof fn lemma_gap_listed(cells: Seq<CellStats>, k: int, n: nat)
    requires
        0 <= k < n <= 5,
        !covered(cells, gap_cell(k)),
    ensures
        exists|i: int|
            0 <= i < open_gaps(cells, n).len() && (#[trigger] open_gaps(cells, n)[i]).cell_id
                == gap_cell(k) && open_gaps(cells, n)[i].name == Some(DOCUMENTED_GAPS@[k]@),
    decreases n,
{
    let after = open_gaps(cells, n);
    let before = open_gaps(cells, (n - 1) as nat);
    if k == n - 1 {
        assert(after[before.len() as int].cell_id == gap_cell(k));
    } else {
        lemma_gap_listed(cells, k, (n - 1) as nat);
        let i = choose|i: int|
            0 <= i < before.len() && (#[trigger] before[i]).cell_id == gap_cell(k) && before[i].name
                == Some(DOCUMENTED_GAPS@[k]@);
        assert(after[i] == before[i]);
    }
}

proof fn lemma_gaps_stay(cells: Seq<CellStats>, n: nat)
    ensures
        holes_among(cells, n).len() >= open_gaps(cells, 5).len(),
        forall|i: int|
            0 <= i < open_gaps(cells, 5).len() ==> #[trigger] holes_among(cells, n)[i] == open_gaps(
                cells,
                5,
            )[i],
    decreases n,
{
    if n > 0 {
        lemma_gaps_stay(cells, (n - 1) as nat);
    }
}

/// No cell that a source covers is a hole, and every hole is labeled an estimate.
pub proof fn covered_cells_are_no_holes(cells: Seq<CellStats>, i: int)
    requires
        distinct_cells(cells),
        0 <= i < holes_of(cells).len(),
    ensures
        !covered(cells, holes_of(cells)[i].cell_id),
        holes_of(cells)[i].basis == "estimated"@,
{
    lemma_holes_uncovered(cells, cells.len(), i);
}

proof fn lemma_open_gaps_uncovered(cells: Seq<CellStats>, k: nat, i: int)
    requires
        k <= 5,
        0 <= i < open_gaps(cells, k).len(),
    ensures
        !covered(cells, open_gaps(cells, k)[i].cell_id),
        open_gaps(cells, k)[i].basis == "estimated"@,
    decreases k,
{
    if i < open_gaps(cells, (k - 1) as nat).len() {
        lemma_open_gaps_uncovered(cells, (k - 1) as nat, i);
    }
}

proof fn lemma_entry_is_the_cell(cells: Seq<CellStats>, k: int)
    requires
        distinct_cells(cells),
        0 <= k < cells.len(),
    ensures
        entry_at(cells, cells[k].cell_id) == Some(cells[k]),
    decreases cells.len(),
{
    if k < cells.len() - 1 {
        let front = cells.drop_last();
        assert(front[k] == cells[k]);
        assert(cells[k].cell_id != cells[cells.len() - 1].cell_id);
        assert(distinct_cells(front)) by {
            assert forall|a: int, b: int| 0 <= a < b < front.len() implies (
            #[trigger] front[a]).cell_id != (#[trigger] front[b]).cell_id by {
                assert(cells[a].cell_id != cells[b].cell_id);
            }
        }
        lemma_entry_is_the_cell(front, k);
    }
}

proof fn lemma_holes_uncovered(cells: Seq<CellStats>, n: nat, i: int)
    requires
        distinct_cells(cells),
        n <= cells.len(),
        0 <= i < holes_among(cells, n).len(),
    ensures
        !covered(cells, holes_among(cells, n)[i].cell_id),
        holes_among(cells, n)[i].basis == "estimated"@,
    decreases n,
{
    if n == 0 {
        lemma_open_gaps_uncovered(cells, 5, i);
    } else {
        let before = holes_among(cells, (n - 1) as nat);
        if i < before.len() {
            lemma_holes_uncovered(cells, (n - 1) as nat, i);
        } else {
            lemma_entry_is_the_cell(cells, n - 1);
        }
    }
}

/// No cell is a hole twice.
pub proof fn no_hole_twice(cells: Seq<CellStats>, i: int, j: int)
    requires
        0 <= i < j < holes_of(cells).len(),
    ensures
        holes_of(cells)[i].cell_id != holes_of(cells)[j].cell_id,
{
    lemma_no_hole_twice(cells, cells.len(), i, j);
}

proof fn lemma_gap_cells_differ(a: int, b: int)
    requires
        0 <= a < b < 5,
    ensures
        gap_cell(a) != gap_cell(b),
{
    reveal_with_fuel(decimal::pow10, 3);
    assert(decimal::pow10(2) == 100);
}

proof fn lemma_gap_of(cells: Seq<CellStats>, k: nat, i: int)
    requires
        k <= 5,
        0 <= i < open_gaps(cells, k).len(),
    ensures
        exists|a: int| 0 <= a < k && open_gaps(cells, k)[i].cell_id == #[trigger] gap_cell(a),
    decreases k,
{
    if i < open_gaps(cells, (k - 1) as nat).len() {
        lemma_gap_of(cells, (k - 1) as nat, i);
    } else {
        assert(open_gaps(cells, k)[i].cell_id == gap_cell(k - 1));
    }
}

proof fn lemma_no_gap_twice(cells: Seq<CellStats>, k: nat, i: int, j: int)
    requires
        k <= 5,
        0 <= i < j < open_gaps(cells, k).len(),
    ensures
        open_gaps(cells, k)[i].cell_id != open_gaps(cells, k)[j].cell_id,
    decreases k,
{
    let before = open_gaps(cells, (k - 1) as nat);
    if j < before.len() {
        lemma_no_gap_twice(cells, (k - 1) as nat, i, j);
    } else {
        lemma_gap_of(cells, (k - 1) as nat, i);
        let a = choose|a: int| 0 <= a < k - 1 && before[i].cell_id == #[trigger] gap_cell(a);
        lemma_gap_cells_differ(a, k - 1);
    }
}

proof fn lemma_no_hole_twice(cells: Seq<CellStats>, n: nat, i: int, j: int)
    requires
        0 <= i < j < holes_among(cells, n).len(),
    ensures
        holes_among(cells, n)[i].cell_id != holes_among(cells, n)[j].cell_id,
    decreases n,
{
    if n == 0 {
        lemma_no_gap_twice(cells, 5, i, j);
    } else {
        let before = holes_among(cells, (n - 1) as nat);
        if j < before.len() {
            lemma_no_hole_twice(cells, (n - 1) as nat, i, j);
        } else {
            assert(holes_among(cells, n)[i] == before[i]);
        }
    }
}

/// Whether two cells are the same or touch, at an edge or at a corner.
pub open spec fn within_one(a: CellId, b: CellId) -> bool {
    -1 <= a.lat_idx - b.lat_idx <= 1 && -1 <= a.lon_idx - b.lon_idx <= 1
}

/// The records of the cells of a map that are a given cell or touch it.
pub open spec fn records_near(cells: Seq<CellStats>, id: CellId) -> int
    decreases cells.len(),
{
    if cells.len() == 0 {
        0
    } else {
        records_near(cells.drop_last(), id) + (if within_one(cells.last().cell_id, id) {
            cells.last().record_count as int
        } else {
            0
        })
    }
}

/// The documented gaps: the names, and the half degrees that the metros lie in.
pub open spec fn documented_gap(k: int) -> (Seq<char>, int, int) {
    if k == 0 {
        ("Los Angeles, CA"@, 68, -237)
    } else if k == 1 {
        ("New York, NY"@, 81, -149)
    } else if k == 2 {
        ("Chicago, IL"@, 83, -176)
    } else if k == 3 {
        ("Houston, TX"@, 59, -191)
    } else {
        ("Phoenix, AZ"@, 66, -225)
    }
}

/// Whether a cell is that of a documented gap.
pub open spec fn is_gap(id: CellId, k: int) -> bool {
    0 <= k < 5 && id.lat_idx == documented_gap(k).1 && id.lon_idx == documented_gap(k).2
}

/// Whether no cell of a map that has a source is the given one.
pub open spec fn without_source(cells: Seq<CellStats>, id: CellId) -> bool {
    forall|i: int|
        0 <= i < cells.len() && (#[trigger] cells[i]).cell_id == id ==> cells[i].distinct_sources
            == 0
}

proof fn lemma_gap_is_documented(k: int)
    requires
        0 <= k < 5,
    ensures
        is_gap(gap_cell(k), k),
        DOCUMENTED_GAPS@[k]@ == documented_gap(k).0,
{
    reveal_with_fuel(decimal::pow10, 3);
    assert(decimal::pow10(2) == 100);
}

proof fn lemma_no_entry(cells: Seq<CellStats>, id: CellId)
    requires
        forall|i: int| 0 <= i < cells.len() ==> (#[trigger] cells[i]).cell_id != id,
    ensures
        entry_at(cells, id) is None,
    decreases cells.len(),
{
    if cells.len() > 0 {
        assert(cells[cells.len() - 1].cell_id != id);
        assert forall|i: int| 0 <= i < cells.drop_last().len() implies (
        #[trigger] cells.drop_last()[i]).cell_id != id by {
            assert(cells[i].cell_id != id);
        }
        lemma_no_entry(cells.drop_last(), id);
    }
}

proof fn lemma_front_is_distinct(cells: Seq<CellStats>)
    requires
        distinct_cells(cells),
        cells.len() > 0,
    ensures
        distinct_cells(cells.drop_last()),
        entry_at(cells.drop_last(), cells.last().cell_id) is None,
{
    let front = cells.drop_last();
    assert forall|a: int, b: int| 0 <= a < b < front.len() implies (#[trigger] front[a]).cell_id
        != (#[trigger] front[b]).cell_id by {
        assert(cells[a].cell_id != cells[b].cell_id);
    }
    assert forall|i: int| 0 <= i < front.len() implies (#[trigger] front[i]).cell_id
        != cells.last().cell_id by {
        assert(cells[i].cell_id != cells[cells.len() - 1].cell_id);
    }
    lemma_no_entry(front, cells.last().cell_id);
}

/// What one more cell adds to the records of several.
proof fn lemma_cell_adds(cells: Seq<CellStats>, ids: Seq<CellId>)
    requires
        cells.len() > 0,
        distinct_cells(cells),
        ids.no_duplicates(),
    ensures
        records_in_all(cells, ids) == records_in_all(cells.drop_last(), ids) + (if ids.contains(
            cells.last().cell_id,
        ) {
            cells.last().record_count as int
        } else {
            0
        }),
    decreases ids.len(),
{
    lemma_front_is_distinct(cells);
    if ids.len() > 0 {
        let front = ids.drop_last();
        let id = cells.last().cell_id;
        lemma_cell_adds(cells, front);
        if front.contains(id) {
            let j = choose|j: int| 0 <= j < front.len() && front[j] == id;
            assert(ids[j] == id);
            assert(ids.last() != id);
        }
        if ids.contains(id) && ids.last() != id {
            let j = choose|j: int| 0 <= j < ids.len() && ids[j] == id;
            assert(front[j] == id);
        }
        if ids.last() == id {
            assert(ids[ids.len() - 1] == id);
        }
    }
}

proof fn lemma_near_by_neighbors(cells: Seq<CellStats>, id: CellId)
    requires
        distinct_cells(cells),
        has_neighbors(id),
    ensures
        records_near(cells, id) == records_around(cells, id) + records_at(cells, id),
    decreases cells.len(),
{
    let ids = neighbors_of(id).push(id);
    neighbors_are_distinct(id);
    assert(ids.drop_last() =~= neighbors_of(id));
    assert(ids.no_duplicates());
    assert(records_in_all(cells, ids) == records_around(cells, id) + records_at(cells, id));
    if cells.len() == 0 {
        lemma_nothing_in_no_cells(cells, ids);
    } else {
        lemma_front_is_distinct(cells);
        lemma_near_by_neighbors(cells.drop_last(), id);
        lemma_cell_adds(cells, ids);
        let c = cells.last().cell_id;
        assert(ids.contains(c) == within_one(c, id)) by {
            if within_one(c, id) {
                let dlat = c.lat_idx - id.lat_idx;
                let dlon = c.lon_idx - id.lon_idx;
                assert(c == ids[0] || c == ids[1] || c == ids[2] || c == ids[3] || c == ids[4] || c
                    == ids[5] || c == ids[6] || c == ids[7] || c == ids[8]);
            }
        }
    }
}

proof fn lemma_covered(cells: Seq<CellStats>, id: CellId)
    requires
        distinct_cells(cells),
    ensures
        covered(cells, id) == !without_source(cells, id),
{
    if exists|i: int| 0 <= i < cells.len() && (#[trigger] cells[i]).cell_id == id {
        let i = choose|i: int| 0 <= i < cells.len() && (#[trigger] cells[i]).cell_id == id;
        lemma_entry_is_the_cell(cells, i);
        assert forall|j: int| 0 <= j < cells.len() && (#[trigger] cells[j]).cell_id == id implies j
            == i by {
            if j < i {
                assert(cells[j].cell_id != cells[i].cell_id);
            } else if i < j {
                assert(cells[i].cell_id != cells[j].cell_id);
            }
        }
    } else {
        lemma_no_entry(cells, id);
    }
}

/// A documented gap that no source covers is a hole under its name, and what it
/// misses is estimated by the records of all cells of the map that are the gap's
/// cell or touch it, in whichever of the eight directions.
pub proof fn gaps_are_estimated_by_all_around(cells: Seq<CellStats>, k: int, id: CellId)
    requires
        distinct_cells(cells),
        is_gap(id, k),
        without_source(cells, id),
    ensures
        exists|i: int|
            0 <= i < holes_of(cells).len() && {
                let h = #[trigger] holes_of(cells)[i];
                &&& h.cell_id == id
                &&& h.name == Some(documented_gap(k).0)
                &&& h.estimated_missed_population == records_near(cells, id)
            },
{
    lemma_gap_is_documented(k);
    lemma_gap_cell(k);
    lemma_covered(cells, id);
    assert(id == gap_cell(k));
    open_gaps_are_holes(cells, k);
    let i = choose|i: int|
        0 <= i < holes_of(cells).len() && (#[trigger] holes_of(cells)[i]).cell_id == gap_cell(k)
            && holes_of(cells)[i].name == Some(DOCUMENTED_GAPS@[k]@);
    every_hole_is_accounted_for(cells, i);
}

/// A cell of the map without a source is a hole where it or a cell that touches
/// it has records, and those records are its estimate.
pub proof fn orphans_are_estimated_by_all_around(cells: Seq<CellStats>, n: int)
    requires
        distinct_cells(cells),
        0 <= n < cells.len(),
        cells[n].distinct_sources == 0,
        has_neighbors(cells[n].cell_id),
        records_near(cells, cells[n].cell_id) >= 1,
    ensures
        exists|i: int|
            0 <= i < holes_of(cells).len() && {
                let h = #[trigger] holes_of(cells)[i];
                &&& h.cell_id == cells[n].cell_id
                &&& h.estimated_missed_population == records_near(cells, cells[n].cell_id)
            },
{
    lemma_near_by_neighbors(cells, cells[n].cell_id);
    lemma_entry_is_the_cell(cells, n);
    lemma_orphan_listed(cells, n, cells.len());
    let i = choose|i: int|
        0 <= i < holes_of(cells).len() && (#[trigger] holes_of(cells)[i]).cell_id
            == cells[n].cell_id;
    every_hole_is_accounted_for(cells, i);
}

proof fn lemma_orphan_listed(cells: Seq<CellStats>, n: int, m: nat)
    requires
        0 <= n < m <= cells.len(),
        orphaned(cells, cells[n]),
    ensures
        listed(holes_among(cells, m), cells[n].cell_id),
    decreases m,
{
    let before = holes_among(cells, (m - 1) as nat);
    let after = holes_among(cells, m);
    if n == m - 1 {
        if listed(before, cells[n].cell_id) {
            let i = choose|i: int|
                0 <= i < before.len() && (#[trigger] before[i]).cell_id == cells[n].cell_id;
            assert(after[i].cell_id == cells[n].cell_id);
        } else {
            assert(after[before.len() as int].cell_id == cells[n].cell_id);
        }
    } else {
        lemma_orphan_listed(cells, n, (m - 1) as nat);
        let i = choose|i: int|
            0 <= i < before.len() && (#[trigger] before[i]).cell_id == cells[n].cell_id;
        assert(after[i].cell_id == cells[n].cell_id);
    }
}

/// Every hole is a documented gap, under its name, or a cell of the map with
/// records in or around it, without a name. None has a source; the estimate of
/// each is the records in and around it; and its center is that of its half
/// degree, in quarter degrees.
pub proof fn every_hole_is_accounted_for(cells: Seq<CellStats>, i: int)
    requires
        distinct_cells(cells),
        0 <= i < holes_of(cells).len(),
    ensures
        ({
            let h = holes_of(cells)[i];
            &&& without_source(cells, h.cell_id)
            &&& has_neighbors(h.cell_id) ==> h.estimated_missed_population == records_near(
                cells,
                h.cell_id,
            )
            &&& h.center_lat == 2 * h.cell_id.lat_idx + 1
            &&& h.center_lon == 2 * h.cell_id.lon_idx + 1
            &&& h.basis == "estimated"@
            &&& match h.name {
                Some(name) => exists|k: int|
                    #![trigger documented_gap(k)]
                    is_gap(h.cell_id, k) && name == documented_gap(k).0,
                None => {
                    &&& exists|n: int|
                        0 <= n < cells.len() && (#[trigger] cells[n]).cell_id == h.cell_id
                    &&& has_neighbors(h.cell_id) ==> h.estimated_missed_population >= 1
                },
            }
        }),
{
    covered_cells_are_no_holes(cells, i);
    let h = holes_of(cells)[i];
    lemma_covered(cells, h.cell_id);
    lemma_hole_form(cells, cells.len(), i);
    if has_neighbors(h.cell_id) {
        lemma_near_by_neighbors(cells, h.cell_id);
    }
}

proof fn lemma_gap_form(cells: Seq<CellStats>, k: nat, i: int)
    requires
        k <= 5,
        0 <= i < open_gaps(cells, k).len(),
    ensures
        ({
            let h = open_gaps(cells, k)[i];
            &&& h.estimated_missed_population == records_around(cells, h.cell_id) + records_at(
                cells,
                h.cell_id,
            )
            &&& h.center_lat == 2 * h.cell_id.lat_idx + 1
            &&& h.center_lon == 2 * h.cell_id.lon_idx + 1
            &&& h.name is Some
            &&& exists|a: int|
                #![trigger documented_gap(a)]
                is_gap(h.cell_id, a) && h.name == Some(documented_gap(a).0)
        }),
    decreases k,
{
    if i < open_gaps(cells, (k - 1) as nat).len() {
        lemma_gap_form(cells, (k - 1) as nat, i);
    } else {
        lemma_gap_is_documented(k - 1);
        let h = open_gaps(cells, k)[i];
        assert(is_gap(h.cell_id, k - 1) && h.name == Some(documented_gap(k - 1).0));
    }
}

proof fn lemma_hole_form(cells: Seq<CellStats>, n: nat, i: int)
    requires
        distinct_cells(cells),
        n <= cells.len(),
        0 <= i < holes_among(cells, n).len(),
    ensures
        ({
            let h = holes_among(cells, n)[i];
            &&& h.estimated_missed_population == records_around(cells, h.cell_id) + records_at(
                cells,
                h.cell_id,
            )
            &&& h.center_lat == 2 * h.cell_id.lat_idx + 1
            &&& h.center_lon == 2 * h.cell_id.lon_idx + 1
            &&& match h.name {
                Some(name) => exists|a: int|
                    #![trigger documented_gap(a)]
                    is_gap(h.cell_id, a) && name == documented_gap(a).0,
                None => {
                    &&& exists|m: int|
                        0 <= m < cells.len() && (#[trigger] cells[m]).cell_id == h.cell_id
                    &&& h.estimated_missed_population >= 1
                },
            }
        }),
    decreases n,
{
    if n == 0 {
        lemma_gap_form(cells, 5, i);
    } else {
        let before = holes_among(cells, (n - 1) as nat);
        if i < before.len() {
            lemma_hole_form(cells, (n - 1) as nat, i);
        } else {
            lemma_entry_is_the_cell(cells, n - 1);
            assert(cells[n - 1].cell_id == holes_among(cells, n)[i].cell_id);
        }
    }
}

/// The records near a cell grow by `more` where a cell that is or touches it
/// does, whichever it is, and stay where any other cell grows.
pub proof fn each_cell_around_counts(cells: Seq<CellStats>, j: int, c: CellStats, id: CellId)
    requires
        0 <= j < cells.len(),
        c.cell_id == cells[j].cell_id,
    ensures
        records_near(cells.update(j, c), id) == records_near(cells, id) + (if within_one(
            c.cell_id,
            id,
        ) {
            c.record_count - cells[j].record_count
        } else {
            0
        }),
    decreases cells.len(),
{
    let after = cells.update(j, c);
    if j == cells.len() - 1 {
        assert(after.drop_last() =~= cells.drop_last());
    } else {
        assert(after.drop_last() =~= cells.drop_last().update(j, c));
        each_cell_around_counts(cells.drop_last(), j, c, id);
    }
}

/// A documented gap is estimated higher by as many records as any one cell around
/// it gains, in whichever direction that cell lies.
pub proof fn gaps_grow_with_any_neighbor(
    cells: Seq<CellStats>,
    j: int,
    c: CellStats,
    k: int,
    id: CellId,
    before: int,
    after: int,
)
    requires
        distinct_cells(cells),
        0 <= j < cells.len(),
        c.cell_id == cells[j].cell_id,
        c.distinct_sources == cells[j].distinct_sources,
        is_gap(id, k),
        without_source(cells, id),
        within_one(c.cell_id, id),
        0 <= before < holes_of(cells).len(),
        holes_of(cells)[before].cell_id == id,
        0 <= after < holes_of(cells.update(j, c)).len(),
        holes_of(cells.update(j, c))[after].cell_id == id,
    ensures
        holes_of(cells.update(j, c))[after].estimated_missed_population - holes_of(
            cells,
        )[before].estimated_missed_population == c.record_count - cells[j].record_count,
{
    let raised = cells.update(j, c);
    assert(distinct_cells(raised)) by {
        assert forall|a: int, b: int| 0 <= a < b < raised.len() implies (
        #[trigger] raised[a]).cell_id != (#[trigger] raised[b]).cell_id by {
            assert(cells[a].cell_id != cells[b].cell_id);
        }
    }
    lemma_gap_is_documented(k);
    lemma_gap_cell(k);
    assert(id == gap_cell(k));
    every_hole_is_accounted_for(cells, before);
    every_hole_is_accounted_for(raised, after);
    each_cell_around_counts(cells, j, c, id);
}

/// A record with both coordinates lies in the half-degree cell that its latitude
/// and its longitude fall in; one that lacks either lies in none.
pub proof fn records_lie_where_they_were_found(rec: PetRecordView)
    ensures
        match rec.location {
            Some(loc) => match (loc.lat, loc.lon) {
                (Some(lat), Some(lon)) => cell_of(rec) matches Some(id) && {
                    let degree = decimal::pow10(loc.precision as nat) as int;
                    &&& i32::MIN < id.lat_idx < i32::MAX ==> id.lat_idx * degree <= 2 * lat < (
                    id.lat_idx + 1) * degree
                    &&& i32::MIN < id.lon_idx < i32::MAX ==> id.lon_idx * degree <= 2 * lon < (
                    id.lon_idx + 1) * degree
                    &&& id.lat_idx == i32::MIN ==> 2 * lat < (i32::MIN + 1) * degree
                    &&& id.lon_idx == i32::MIN ==> 2 * lon < (i32::MIN + 1) * degree
                    &&& id.lat_idx == i32::MAX ==> 2 * lat >= i32::MAX * degree
                    &&& id.lon_idx == i32::MAX ==> 2 * lon >= i32::MAX * degree
                },
                _ => cell_of(rec) is None,
            },
            None => cell_of(rec) is None,
        },
{
    match rec.location {
        Some(loc) => match (loc.lat, loc.lon) {
            (Some(lat), Some(lon)) => {
                lemma_clamped_cell(lat as int, loc.precision as nat);
                lemma_clamped_cell(lon as int, loc.precision as nat);
            },
            _ => {},
        },
        None => {},
    }
}

proof fn lemma_clamped_cell(n: int, precision: nat)
    ensures
        ({
            let i = clamped(cell_index(n, precision));
            let degree = decimal::pow10(precision) as int;
            &&& i32::MIN <= i <= i32::MAX
            &&& i32::MIN < i < i32::MAX ==> i * degree <= 2 * n < (i + 1) * degree
            &&& i == i32::MIN ==> 2 * n < (i32::MIN + 1) * degree
            &&& i == i32::MAX ==> 2 * n >= i32::MAX * degree
        }),
{
    places_lie_in_their_cell(n, precision);
    decimal::lemma_pow10_positive(precision);
    let i = cell_index(n, precision);
    let d = decimal::pow10(precision) as int;
    if i < i32::MIN {
        assert((i + 1) * d <= (i32::MIN + 1) * d) by (nonlinear_arith)
            requires
                i < i32::MIN,
                d > 0,
        ;
    }
    if i > i32::MAX {
        assert(i * d >= i32::MAX * d) by (nonlinear_arith)
            requires
                i > i32::MAX,
                d > 0,
        ;
    }
}

/// One more record of a stray intake or a found report in a cell is one more stray
/// there; a record of any other intake, or elsewhere, is none.
pub proof fn strays_are_intakes_and_found_reports(
    rec: PetRecordView,
    recs: Seq<PetRecordView>,
    id: CellId,
)
    ensures
        strays_in(recs.push(rec), id) - strays_in(recs, id) == (if cell_of(rec) == Some(id) && (
        rec.intake_type == IntakeType::Stray || rec.intake_type == IntakeType::FoundReport) {
            1int
        } else {
            0
        }),
        strays_in(Seq::empty(), id) == 0,
        count_in(Seq::empty(), Some(id)) == 0,
{
    assert(recs.push(rec).drop_last() =~= recs);
}

/// The sources of a cell are those that have a record in it, each once.
pub proof fn sources_have_records(recs: Seq<PetRecordView>, id: CellId, name: Seq<char>)
    ensures
        sources_in(recs, id).contains(name) <==> exists|i: int|
            0 <= i < recs.len() && cell_of(#[trigger] recs[i]) == Some(id) && recs[i].source.name
                == name,
        sources_in(recs, id).finite(),
    decreases recs.len(),
{
    if recs.len() > 0 {
        let front = recs.drop_last();
        sources_have_records(front, id, name);
        if sources_in(front, id).contains(name) {
            let i = choose|i: int|
                0 <= i < front.len() && cell_of(#[trigger] front[i]) == Some(id)
                    && front[i].source.name == name;
            assert(recs[i] == front[i]);
        }
        if exists|i: int|
            0 <= i < recs.len() && cell_of(#[trigger] recs[i]) == Some(id) && recs[i].source.name
                == name {
            let i = choose|i: int|
                0 <= i < recs.len() && cell_of(#[trigger] recs[i]) == Some(id)
                    && recs[i].source.name == name;
            if i < front.len() {
                assert(front[i] == recs[i]);
            }
        }
        if cell_of(recs.last()) == Some(id) && recs.last().source.name == name {
            assert(cell_of(recs[recs.len() - 1]) == Some(id));
        }
    }
}

/// A cell was last seen when the latest of its records was: some record in it was
/// seen then, and none later.
pub proof fn last_seen_is_the_latest(recs: Seq<PetRecordView>, id: CellId)
    ensures
        match latest_in(recs, id) {
            None => forall|i: int| 0 <= i < recs.len() ==> cell_of(#[trigger] recs[i]) != Some(id),
            Some(m) => {
                &&& exists|i: int|
                    0 <= i < recs.len() && cell_of(#[trigger] recs[i]) == Some(id)
                        && recs[i].last_seen == m
                &&& forall|i: int|
                    0 <= i < recs.len() && cell_of(#[trigger] recs[i]) == Some(id) ==> {
                        let t = recs[i].last_seen;
                        t.secs < m.secs || (t.secs == m.secs && t.nanos <= m.nanos)
                    }
            },
        },
    decreases recs.len(),
{
    if recs.len() > 0 {
        let front = recs.drop_last();
        last_seen_is_the_latest(front, id);
        assert forall|i: int| 0 <= i < front.len() implies #[trigger] recs[i] == front[i] by {}
        assert(recs[recs.len() - 1] == recs.last());
        match latest_in(front, id) {
            Some(m) => {
                let i = choose|i: int|
                    0 <= i < front.len() && cell_of(#[trigger] front[i]) == Some(id)
                        && front[i].last_seen == m;
                assert(cell_of(recs[i]) == Some(id));
            },
            None => {},
        }
    }
}

/// A minimum leaves exactly the cells that have as many records, in their order.
pub proof fn cells_below_the_minimum_are_left_out(
    cells: Seq<CellStats>,
    cell: CellStats,
    min_count: int,
)
    ensures
        cells_with(Seq::empty(), min_count).len() == 0,
        cell.record_count >= min_count ==> cells_with(cells.push(cell), min_count) == cells_with(
            cells,
            min_count,
        ).push(cell),
        cell.record_count < min_count ==> cells_with(cells.push(cell), min_count) == cells_with(
            cells,
            min_count,
        ),
{
    assert(cells.push(cell).drop_last() =~= cells);
}

} // verus!
