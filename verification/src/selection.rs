//! Selections: what is left of a sequence when some of its items are taken
//! out and the others keep their order.

use vstd::prelude::*;

verus! {

/// Each index is smaller than the next.
pub open spec fn increasing(indices: Seq<int>) -> bool {
    forall|j: int, k: int| 0 <= j < k < indices.len() ==> indices[j] < indices[k]
}

/// Each item is smaller than the next: ascending, and nothing occurs twice.
pub open spec fn strictly_ascending(items: Seq<u64>) -> bool {
    forall|j: int, k: int| 0 <= j < k < items.len() ==> items[j] < items[k]
}

/// `part` holds the items of `whole` at `indices`, in that order.
pub open spec fn selects<A>(indices: Seq<int>, whole: Seq<A>, part: Seq<A>) -> bool {
    &&& indices.len() == part.len()
    &&& increasing(indices)
    &&& forall|k: int|
        0 <= k < indices.len() ==> 0 <= #[trigger] indices[k] < whole.len() && part[k]
            == whole[indices[k]]
}

/// `part` holds some items of `whole`, each position of `whole` used at most
/// once, in the order of `whole`.
pub open spec fn is_selection_of<A>(part: Seq<A>, whole: Seq<A>) -> bool {
    exists|indices: Seq<int>| selects(indices, whole, part)
}

/// `part` holds exactly the items of `whole` at the positions whose item meets
/// `keep`, in the order of `whole`.
pub open spec fn selects_exactly<A>(
    indices: Seq<int>,
    whole: Seq<A>,
    part: Seq<A>,
    keep: spec_fn(A) -> bool,
) -> bool {
    &&& selects(indices, whole, part)
    &&& forall|i: int| 0 <= i < whole.len() ==> (keep(whole[i]) <==> #[trigger] indices.contains(i))
}

/// A filter selects exactly the positions whose item meets the condition.
pub proof fn lemma_filter_selects<A>(whole: Seq<A>, keep: spec_fn(A) -> bool) -> (indices: Seq<int>)
    ensures
        selects_exactly(indices, whole, whole.filter(keep), keep),
    decreases whole.len(),
{
    reveal(Seq::filter);
    if whole.len() == 0 {
        Seq::empty()
    } else {
        let front = whole.drop_last();
        let last = whole.len() - 1;
        let before = lemma_filter_selects(front, keep);
        if keep(whole.last()) {
            let indices = before.push(last);
            let part = whole.filter(keep);
            assert(part == front.filter(keep).push(whole.last()));
            assert forall|k: int| 0 <= k < indices.len() implies 0 <= #[trigger] indices[k]
                < whole.len() && part[k] == whole[indices[k]] by {
                if k < before.len() {
                    assert(indices[k] == before[k]);
                    assert(front[before[k]] == whole[before[k]]);
                }
            }
            assert forall|j: int, k: int| 0 <= j < k < indices.len() implies indices[j]
                < indices[k] by {
                assert(indices[j] == before[j]);
                if k < before.len() {
                    assert(indices[k] == before[k]);
                }
            }
            assert forall|i: int| 0 <= i < whole.len() implies (keep(whole[i])
                <==> #[trigger] indices.contains(i)) by {
                if i == last {
                    assert(indices[before.len() as int] == i);
                } else {
                    assert(front[i] == whole[i]);
                    if before.contains(i) {
                        let k = choose|k: int| 0 <= k < before.len() && before[k] == i;
                        assert(indices[k] == i);
                    }
                    if indices.contains(i) {
                        let k = choose|k: int| 0 <= k < indices.len() && indices[k] == i;
                        assert(before[k] == i);
                    }
                }
            }
            indices
        } else {
            assert forall|k: int| 0 <= k < before.len() implies 0 <= #[trigger] before[k]
                < whole.len() && whole.filter(keep)[k] == whole[before[k]] by {
                assert(front[before[k]] == whole[before[k]]);
            }
            assert forall|i: int| 0 <= i < whole.len() implies (keep(whole[i])
                <==> #[trigger] before.contains(i)) by {
                if i == last {
                    if before.contains(i) {
                        let k = choose|k: int| 0 <= k < before.len() && before[k] == i;
                        assert(before[k] < front.len());
                    }
                } else {
                    assert(front[i] == whole[i]);
                }
            }
            before
        }
    }
}

/// What a filter leaves is a selection of what it was given.
pub proof fn lemma_filter_is_selection<A>(whole: Seq<A>, keep: spec_fn(A) -> bool)
    ensures
        is_selection_of(whole.filter(keep), whole),
{
    let indices = lemma_filter_selects(whole, keep);
    assert(selects(indices, whole, whole.filter(keep)));
}

/// A selection of a selection is a selection.
pub proof fn lemma_selection_of_selection<A>(inner: Seq<A>, middle: Seq<A>, whole: Seq<A>)
    requires
        is_selection_of(inner, middle),
        is_selection_of(middle, whole),
    ensures
        is_selection_of(inner, whole),
{
    let first = choose|indices: Seq<int>| selects(indices, middle, inner);
    let second = choose|indices: Seq<int>| selects(indices, whole, middle);
    let both = Seq::new(inner.len(), |k: int| second[first[k]]);
    assert forall|k: int| 0 <= k < both.len() implies 0 <= #[trigger] both[k] < whole.len()
        && inner[k] == whole[both[k]] by {
        assert(0 <= first[k] < middle.len());
        assert(0 <= second[first[k]] < whole.len());
    }
    assert forall|j: int, k: int| 0 <= j < k < both.len() implies both[j] < both[k] by {
        assert(0 <= first[j] < first[k] < middle.len());
    }
    assert(selects(both, whole, inner));
}

/// A selection is no longer than what it was taken from, and each of its
/// items is one of that.
pub proof fn lemma_selection_is_within<A>(part: Seq<A>, whole: Seq<A>)
    requires
        is_selection_of(part, whole),
    ensures
        part.len() <= whole.len(),
        forall|k: int| 0 <= k < part.len() ==> whole.contains(#[trigger] part[k]),
{
    let indices = choose|indices: Seq<int>| selects(indices, whole, part);
    lemma_increasing_is_bounded(indices, whole.len() as int);
    assert forall|k: int| 0 <= k < part.len() implies whole.contains(#[trigger] part[k]) by {
        assert(0 <= indices[k] < whole.len() && whole[indices[k]] == part[k]);
    }
}

/// Increasing indices below a bound are no more than the bound.
proof fn lemma_increasing_is_bounded(indices: Seq<int>, bound: int)
    requires
        0 <= bound,
        increasing(indices),
        forall|k: int| 0 <= k < indices.len() ==> 0 <= #[trigger] indices[k] < bound,
    ensures
        indices.len() <= bound,
        forall|k: int| 0 <= k < indices.len() ==> k <= #[trigger] indices[k],
    decreases indices.len(),
{
    if indices.len() > 0 {
        let front = indices.drop_last();
        let top = indices[indices.len() - 1];
        assert(0 <= top < bound);
        assert forall|k: int| 0 <= k < front.len() implies 0 <= #[trigger] front[k] < top by {
            assert(front[k] == indices[k]);
        }
        assert(increasing(front)) by {
            assert forall|j: int, k: int| 0 <= j < k < front.len() implies front[j] < front[k] by {
                assert(front[j] == indices[j] && front[k] == indices[k]);
            }
        }
        lemma_increasing_is_bounded(front, top);
        assert forall|k: int| 0 <= k < indices.len() implies k <= #[trigger] indices[k] by {
            if k < front.len() {
                assert(front[k] == indices[k]);
            }
        }
    }
}

/// A selection of a strictly ascending sequence is strictly ascending.
pub proof fn lemma_selection_stays_ascending(part: Seq<u64>, whole: Seq<u64>)
    requires
        is_selection_of(part, whole),
        strictly_ascending(whole),
    ensures
        strictly_ascending(part),
{
    let indices = choose|indices: Seq<int>| selects(indices, whole, part);
    assert forall|j: int, k: int| 0 <= j < k < part.len() implies part[j] < part[k] by {
        assert(0 <= indices[j] < indices[k] < whole.len());
    }
}

/// Two strictly ascending sequences that hold the same values are equal.
pub proof fn lemma_ascending_is_unique(first: Seq<u64>, second: Seq<u64>)
    requires
        strictly_ascending(first),
        strictly_ascending(second),
        first.to_set() == second.to_set(),
    ensures
        first == second,
    decreases first.len(),
{
    if first.len() == 0 {
        if second.len() > 0 {
            assert(second.to_set().contains(second[0]));
            assert(first.contains(second[0]));
        }
        assert(first =~= second);
    } else {
        let top = first.last();
        assert(first.to_set().contains(top));
        assert(second.contains(top));
        let at = choose|k: int| 0 <= k < second.len() && second[k] == top;
        if at < second.len() - 1 {
            let above = second.last();
            assert(second.to_set().contains(above));
            assert(first.contains(above));
            let k = choose|k: int| 0 <= k < first.len() && first[k] == above;
            assert(first[k] <= top);
            assert(second[at] < above);
        }
        let less_first = first.drop_last();
        let less_second = second.drop_last();
        assert forall|value: u64| less_first.to_set().contains(value)
            <==> less_second.to_set().contains(value) by {
            if less_first.contains(value) {
                let k = choose|k: int| 0 <= k < less_first.len() && less_first[k] == value;
                assert(first[k] == value && first[k] < top);
                assert(first.to_set().contains(value));
                assert(second.contains(value));
                let m = choose|m: int| 0 <= m < second.len() && second[m] == value;
                assert(m != second.len() - 1);
                assert(less_second[m] == value);
            }
            if less_second.contains(value) {
                let k = choose|k: int| 0 <= k < less_second.len() && less_second[k] == value;
                assert(second[k] == value && second[k] < top);
                assert(second.to_set().contains(value));
                assert(first.contains(value));
                let m = choose|m: int| 0 <= m < first.len() && first[m] == value;
                assert(m != first.len() - 1);
                assert(less_first[m] == value);
            }
        }
        assert(less_first.to_set() =~= less_second.to_set());
        lemma_ascending_is_unique(less_first, less_second);
        assert(first =~= less_first.push(top));
        assert(second =~= less_second.push(top));
    }
}

} // verus!
