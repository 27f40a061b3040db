//! Sequences kept in ascending order, each value once.

use vstd::prelude::*;

verus! {

/// A type whose values are put in order by what they stand for, their view.
pub trait Ordered: View + Sized {
    /// `a` comes strictly before `b`.
    spec fn lt(a: Self::V, b: Self::V) -> bool;

    /// `lt` is a strict total order on views.
    proof fn lemma_strict_total_order(a: Self::V, b: Self::V, c: Self::V)
        ensures
            !Self::lt(a, a),
            Self::lt(a, b) && Self::lt(b, c) ==> Self::lt(a, c),
            Self::lt(a, b) || a == b || Self::lt(b, a),
    ;

    /// Tells whether `self` comes strictly before `other`.
    fn precedes(&self, other: &Self) -> (before: bool)
        ensures
            before == Self::lt(self@, other@),
    ;

    /// A second value that stands for the same as `self`.
    fn duplicate(&self) -> (copy: Self)
        ensures
            copy@ == self@,
    ;
}

/// What the values of a sequence stand for, in the same order.
pub open spec fn views<T: View>(items: Seq<T>) -> Seq<T::V> {
    items.map_values(|item: T| item@)
}

/// Every value comes strictly before all that follow it.
pub open spec fn strictly_ascending<T: Ordered>(s: Seq<T::V>) -> bool {
    forall|i: int, j: int| 0 <= i < j < s.len() ==> T::lt(#[trigger] s[i], #[trigger] s[j])
}

/// Two sequences hold the same values, however often and wherever.
pub open spec fn same_values<V>(a: Seq<V>, b: Seq<V>) -> bool {
    forall|v: V| a.contains(v) <==> b.contains(v)
}

/// An ascending sequence holds no value twice.
pub proof fn lemma_ascending_has_no_repeats<T: Ordered>(s: Seq<T::V>)
    requires
        strictly_ascending::<T>(s),
    ensures
        forall|i: int, j: int| 0 <= i < s.len() && 0 <= j < s.len() && i != j ==> s[i] != s[j],
{
    assert forall|i: int, j: int| 0 <= i < s.len() && 0 <= j < s.len() && i != j implies s[i]
        != s[j] by {
        T::lemma_strict_total_order(s[i], s[j], s[i]);
        if i < j {
            assert(T::lt(s[i], s[j]));
        } else {
            assert(T::lt(s[j], s[i]));
        }
    }
}

/// An ascending sequence is fixed by the values it holds: two of them with
/// the same values are the same sequence.
pub proof fn lemma_ascending_is_unique<T: Ordered>(a: Seq<T::V>, b: Seq<T::V>)
    requires
        strictly_ascending::<T>(a),
        strictly_ascending::<T>(b),
        same_values(a, b),
    ensures
        a == b,
    decreases a.len(),
{
    if a.len() == 0 {
        if b.len() > 0 {
            assert(b.contains(b[0]));
        }
    } else if b.len() == 0 {
        assert(a.contains(a[0]));
    } else {
        assert(a.contains(a[0]));
        assert(b.contains(b[0]));
        T::lemma_strict_total_order(a[0], b[0], a[0]);
        let ra = a.drop_first();
        let rb = b.drop_first();
        assert forall|v: T::V| ra.contains(v) <==> rb.contains(v) by {
            if ra.contains(v) {
                let i = choose|i: int| 0 <= i < ra.len() && ra[i] == v;
                assert(a.contains(v));
                let j = choose|j: int| 0 <= j < b.len() && b[j] == v;
                assert(rb[j - 1] == v);
            }
            if rb.contains(v) {
                let i = choose|i: int| 0 <= i < rb.len() && rb[i] == v;
                assert(b.contains(v));
                let j = choose|j: int| 0 <= j < a.len() && a[j] == v;
                assert(ra[j - 1] == v);
            }
        }
        assert(strictly_ascending::<T>(ra)) by {
            assert forall|i: int, j: int| 0 <= i < j < ra.len() implies T::lt(
                #[trigger] ra[i],
                #[trigger] ra[j],
            ) by {
                assert(T::lt(a[i + 1], a[j + 1]));
            }
        }
        assert(strictly_ascending::<T>(rb)) by {
            assert forall|i: int, j: int| 0 <= i < j < rb.len() implies T::lt(
                #[trigger] rb[i],
                #[trigger] rb[j],
            ) by {
                assert(T::lt(b[i + 1], b[j + 1]));
            }
        }
        lemma_ascending_is_unique::<T>(ra, rb);
        assert(b =~= seq![b[0]] + rb);
    }
}

/// The place of `item` in `sorted`: the number of values that come before it.
fn lower_bound<T: Ordered>(sorted: &Vec<T>, item: &T) -> (at: usize)
    requires
        strictly_ascending::<T>(views(sorted@)),
    ensures
        at <= sorted.len(),
        forall|k: int| 0 <= k < at ==> T::lt(#[trigger] sorted@[k]@, item@),
        forall|k: int| at <= k < sorted.len() ==> !T::lt(#[trigger] sorted@[k]@, item@),
{
    let mut low: usize = 0;
    let mut high: usize = sorted.len();
    while low < high
        invariant
            low <= high <= sorted.len(),
            strictly_ascending::<T>(views(sorted@)),
            forall|k: int| 0 <= k < low ==> T::lt(#[trigger] sorted@[k]@, item@),
            forall|k: int| high <= k < sorted.len() ==> !T::lt(#[trigger] sorted@[k]@, item@),
        decreases high - low,
    {
        let middle: usize = low + (high - low) / 2;
        let ghost s = views(sorted@);
        if sorted[middle].precedes(item) {
            assert forall|k: int| 0 <= k < middle + 1 implies T::lt(
                #[trigger] sorted@[k]@,
                item@,
            ) by {
                if k < middle {
                    T::lemma_strict_total_order(s[k], s[middle as int], item@);
                }
            }
            low = middle + 1;
        } else {
            assert forall|k: int| middle <= k < sorted.len() implies !T::lt(
                #[trigger] sorted@[k]@,
                item@,
            ) by {
                if middle < k {
                    T::lemma_strict_total_order(s[middle as int], s[k], item@);
                }
            }
            high = middle;
        }
    }
    low
}

/// Puts `item` in its place in `sorted`, unless a value that stands for the
/// same is there already.
pub(crate) fn insert_unique<T: Ordered>(sorted: &mut Vec<T>, item: &T)
    requires
        strictly_ascending::<T>(views(old(sorted)@)),
    ensures
        strictly_ascending::<T>(views(final(sorted)@)),
        forall|v: T::V|
            views(final(sorted)@).contains(v) <==> (views(old(sorted)@).contains(v) || v
                == item@),
{
    let at = lower_bound(sorted, item);
    let ghost before = views(sorted@);
    if at < sorted.len() && !item.precedes(&sorted[at]) {
        proof {
            T::lemma_strict_total_order(item@, before[at as int], item@);
        }
    } else {
        let copy = item.duplicate();
        sorted.insert(at, copy);
        proof {
            let after = views(sorted@);
            assert forall|i: int, j: int| 0 <= i < j < after.len() implies T::lt(
                #[trigger] after[i],
                #[trigger] after[j],
            ) by {
                let bi = if i < at { i } else { i - 1 };
                let bj = if j < at { j } else { j - 1 };
                if i == at {
                    T::lemma_strict_total_order(item@, before[at as int], before[bj]);
                } else if j != at {
                    assert(T::lt(before[bi], before[bj]));
                }
            }
            assert forall|v: T::V| after.contains(v) <==> (before.contains(v) || v
                == item@) by {
                if after.contains(v) {
                    let i = choose|i: int| 0 <= i < after.len() && after[i] == v;
                    if i < at {
                        assert(before[i] == v);
                    } else if i > at {
                        assert(before[i - 1] == v);
                    }
                }
                if before.contains(v) {
                    let i = choose|i: int| 0 <= i < before.len() && before[i] == v;
                    if i < at {
                        assert(after[i] == v);
                    } else {
                        assert(after[i + 1] == v);
                    }
                }
                assert(after[at as int] == item@);
            }
        }
    }
}

/// Puts each of `items` in its place in `sorted`, but for those that stand
/// for a value which is there already.
pub(crate) fn merge_unique<T: Ordered>(sorted: &mut Vec<T>, items: &[T])
    requires
        strictly_ascending::<T>(views(old(sorted)@)),
    ensures
        strictly_ascending::<T>(views(final(sorted)@)),
        same_values(views(final(sorted)@), views(old(sorted)@) + views(items@)),
{
    let ghost held = views(sorted@);
    let mut i: usize = 0;
    while i < items.len()
        invariant
            i <= items.len(),
            strictly_ascending::<T>(views(sorted@)),
            same_values(views(sorted@), held + views(items@.take(i as int))),
        decreases items.len() - i,
    {
        let ghost seen = views(items@.take(i as int));
        insert_unique(sorted, &items[i]);
        proof {
            let next = views(items@.take(i + 1));
            assert(held + next =~= (held + seen).push(items@[i as int]@));
            assert forall|v: T::V| views(sorted@).contains(v) <==> (held + next).contains(v) by {
                vstd::seq_lib::lemma_seq_contains_after_push(held + seen, items@[i as int]@, v);
            }
        }
        i += 1;
    }
    assert(items@.take(i as int) =~= items@);
}

/// The values of `items` in ascending order, each once.
pub fn sorted_unique<T: Ordered>(items: &[T]) -> (sorted: Vec<T>)
    ensures
        strictly_ascending::<T>(views(sorted@)),
        same_values(views(sorted@), views(items@)),
{
    let mut sorted: Vec<T> = Vec::new();
    merge_unique(&mut sorted, items);
    sorted
}

} // verus!
