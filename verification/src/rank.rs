//! Stable ranking: rows sorted so that the better ones come first.

use vstd::prelude::*;

verus! {

/// Rows that can be ranked.
pub trait Ranked: Sized {
    /// Whether this row belongs before another.
    spec fn above(self, other: Self) -> bool;

    /// Whether this row belongs before another.
    fn is_above(&self, other: &Self) -> (res: bool)
        ensures
            res == self.above(*other),
    ;

    /// No row belongs before itself.
    proof fn above_is_strict(a: Self)
        ensures
            !a.above(a),
    ;

    /// What belongs before a row that belongs before another belongs before
    /// that other.
    proof fn above_is_transitive(a: Self, b: Self, c: Self)
        requires
            a.above(b),
            b.above(c),
        ensures
            a.above(c),
    ;

    /// Rows that tie with the same row tie with each other.
    proof fn ties_are_transitive(a: Self, b: Self, c: Self)
        requires
            !a.above(b),
            !b.above(c),
        ensures
            !a.above(c),
    ;
}

/// Whether neither of two rows belongs before the other.
pub open spec fn tied<T: Ranked>(a: T, b: T) -> bool {
    !a.above(b) && !b.above(a)
}

/// How many rows at the front do not belong after `x`: where `x` is put, behind
/// the rows that it ties with.
pub open spec fn slot_for<T: Ranked>(rows: Seq<T>, x: T) -> int
    decreases rows.len(),
{
    if rows.len() == 0 {
        0
    } else if !x.above(rows.last()) {
        rows.len() as int
    } else {
        slot_for(rows.drop_last(), x)
    }
}

/// The rows in the order of their rank; rows that tie keep their order.
pub open spec fn ranking<T: Ranked>(rows: Seq<T>) -> Seq<T>
    decreases rows.len(),
{
    if rows.len() == 0 {
        Seq::empty()
    } else {
        let before = ranking(rows.drop_last());
        before.insert(slot_for(before, rows.last()), rows.last())
    }
}

/// Whether no row belongs before an earlier one.
pub open spec fn in_order<T: Ranked>(rows: Seq<T>) -> bool {
    forall|i: int, j: int|
        0 <= i < j < rows.len() ==> !(#[trigger] rows[j]).above(#[trigger] rows[i])
}

proof fn lemma_slot_in_range<T: Ranked>(rows: Seq<T>, x: T)
    ensures
        0 <= slot_for(rows, x) <= rows.len(),
        slot_for(rows, x) > 0 ==> !x.above(rows[slot_for(rows, x) - 1]),
        forall|i: int| slot_for(rows, x) <= i < rows.len() ==> x.above(#[trigger] rows[i]),
    decreases rows.len(),
{
    if rows.len() > 0 && x.above(rows.last()) {
        lemma_slot_in_range(rows.drop_last(), x);
        let k = slot_for(rows, x);
        assert forall|i: int| k <= i < rows.len() implies x.above(#[trigger] rows[i]) by {
            if i < rows.len() - 1 {
                assert(rows.drop_last()[i] == rows[i]);
            }
        }
    }
}

proof fn lemma_insert_in_order<T: Ranked>(rows: Seq<T>, x: T)
    requires
        in_order(rows),
    ensures
        in_order(rows.insert(slot_for(rows, x), x)),
{
    let k = slot_for(rows, x);
    lemma_slot_in_range(rows, x);
    let after = rows.insert(k, x);
    assert forall|i: int, j: int| 0 <= i < j < after.len() implies !(#[trigger] after[j]).above(
        #[trigger] after[i],
    ) by {
        if j < k {
            assert(!rows[j].above(rows[i]));
        } else if j == k {
            // Everything before the slot stands at or before the row in front
            // of it, which does not belong after x.
            if i < k - 1 {
                assert(!rows[k - 1].above(rows[i]));
                T::ties_are_transitive(x, rows[k - 1], rows[i]);
            }
        } else if i == k {
            assert(x.above(rows[j - 1]));
            if rows[j - 1].above(x) {
                T::above_is_transitive(x, rows[j - 1], x);
                T::above_is_strict(x);
            }
        } else if i < k {
            assert(!rows[j - 1].above(rows[i]));
        } else {
            assert(!rows[j - 1].above(rows[i - 1]));
        }
    }
}

/// A ranking is in order and holds the same rows.
pub proof fn ranking_is_sorted<T: Ranked>(rows: Seq<T>)
    ensures
        in_order(ranking(rows)),
        ranking(rows).to_multiset() == rows.to_multiset(),
        ranking(rows).len() == rows.len(),
    decreases rows.len(),
{
    if rows.len() == 0 {
        assert(ranking(rows) =~= rows);
    } else {
        let before = ranking(rows.drop_last());
        let x = rows.last();
        ranking_is_sorted(rows.drop_last());
        lemma_slot_in_range(before, x);
        lemma_insert_in_order(before, x);
        let k = slot_for(before, x);
        before.to_multiset_ensures();
        rows.drop_last().to_multiset_ensures();
        assert(rows =~= rows.drop_last().push(x));
        vstd::seq_lib::to_multiset_insert(before, k, x);
    }
}

/// Rows that tie keep the order in which they were given.
pub proof fn ranking_is_stable<T: Ranked>(rows: Seq<T>, x: T)
    ensures
        ranking(rows).filter(|r: T| tied(r, x)) == rows.filter(|r: T| tied(r, x)),
    decreases rows.len(),
{
    let tie = |r: T| tied(r, x);
    if rows.len() > 0 {
        let rest = rows.drop_last();
        let last = rows.last();
        let before = ranking(rest);
        let k = slot_for(before, last);
        ranking_is_stable(rest, x);
        ranking_is_sorted(rest);
        lemma_slot_in_range(before, last);
        let front = before.take(k);
        let back = before.skip(k);
        assert(before =~= front + back);
        assert(ranking(rows) =~= front.push(last) + back);
        assert(rows =~= rest.push(last));
        Seq::filter_distributes_over_add(front, back, tie);
        Seq::filter_distributes_over_add(front.push(last), back, tie);
        lemma_filter_push(front, last, tie);
        lemma_filter_push(rest, last, tie);
        if tie(last) {
            // Nothing behind the slot ties with x.
            assert forall|i: int| 0 <= i < back.len() implies !tie(#[trigger] back[i]) by {
                assert(back[i] == before[k + i]);
                assert(last.above(back[i]));
                if tied(back[i], x) {
                    // last does not belong before x, nor x before back[i].
                    T::ties_are_transitive(last, x, back[i]);
                }
            }
            lemma_filter_none(back, tie);
            assert(front.filter(tie).push(last) + back.filter(tie) =~= (front.filter(tie)
                + back.filter(tie)).push(last));
        }
    }
}

proof fn lemma_filter_push<T>(s: Seq<T>, x: T, pred: spec_fn(T) -> bool)
    ensures
        s.push(x).filter(pred) == (if pred(x) {
            s.filter(pred).push(x)
        } else {
            s.filter(pred)
        }),
{
    reveal(Seq::filter);
    assert(s.push(x).drop_last() =~= s);
}

proof fn lemma_filter_none<T>(s: Seq<T>, pred: spec_fn(T) -> bool)
    requires
        forall|i: int| 0 <= i < s.len() ==> !pred(#[trigger] s[i]),
    ensures
        s.filter(pred) == Seq::<T>::empty(),
    decreases s.len(),
{
    reveal(Seq::filter);
    if s.len() > 0 {
        assert forall|i: int| 0 <= i < s.drop_last().len() implies !pred(
            #[trigger] s.drop_last()[i],
        ) by {
            assert(s.drop_last()[i] == s[i]);
        }
        lemma_filter_none(s.drop_last(), pred);
    }
}

/// Sorts rows by rank; rows that tie keep their order.
pub fn rank<T: Ranked>(rows: Vec<T>) -> (res: Vec<T>)
    ensures
        res@ == ranking(rows@),
        in_order(res@),
        res@.to_multiset() == rows@.to_multiset(),
        res.len() == rows.len(),
{
    let ghost given = rows@;
    let mut out = rows;
    let mut n: usize = 0;
    assert(given.take(0) =~= Seq::empty());
    assert(out@ =~= ranking(given.take(0)) + given.skip(0));
    while n < out.len()
        invariant
            n <= out.len() == given.len(),
            out@ == ranking(given.take(n as int)) + given.skip(n as int),
        decreases out.len() - n,
    {
        let ghost before = ranking(given.take(n as int));
        proof {
            ranking_is_sorted(given.take(n as int));
            assert(given.take(n + 1).drop_last() =~= given.take(n as int));
        }
        let x = out.remove(n);
        proof {
            assert(x == given[n as int]);
            assert(out@ =~= before + given.skip(n + 1));
        }
        let mut k: usize = n;
        assert(before.take(k as int) =~= before);
        while k > 0 && x.is_above(&out[k - 1])
            invariant
                k <= n == before.len(),
                n <= out.len(),
                forall|i: int| 0 <= i < n ==> out@[i] == #[trigger] before[i],
                slot_for(before.take(k as int), x) == slot_for(before, x),
            decreases k,
        {
            proof {
                assert(before.take(k as int).drop_last() =~= before.take(k - 1));
                assert(before.take(k as int).last() == before[k - 1]);
            }
            k -= 1;
        }
        proof {
            if k > 0 {
                assert(before.take(k as int).last() == before[k - 1]);
            }
            assert(slot_for(before, x) == k);
        }
        out.insert(k, x);
        proof {
            assert(out@ =~= before.insert(k as int, x) + given.skip(n + 1));
        }
        n += 1;
    }
    proof {
        assert(given.take(n as int) =~= given);
        assert(out@ =~= ranking(given));
        ranking_is_sorted(given);
    }
    out
}

} // verus!
