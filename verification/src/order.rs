//! Stable sorting as a function on sequences.
use vstd::prelude::*;

verus! {

/// `value` put behind everything that it is not ahead of.
pub open spec fn placed<A>(sorted: Seq<A>, value: A, ahead: spec_fn(A, A) -> bool) -> Seq<A>
    decreases sorted.len(),
{
    if sorted.len() == 0 || !ahead(value, sorted.last()) {
        sorted.push(value)
    } else {
        placed(sorted.drop_last(), value, ahead).push(sorted.last())
    }
}

/// The values in order: one comes before another where it is ahead of it, and
/// values of which none is ahead keep the order they came in.
pub open spec fn arranged<A>(values: Seq<A>, ahead: spec_fn(A, A) -> bool) -> Seq<A>
    decreases values.len(),
{
    if values.len() == 0 {
        values
    } else {
        placed(arranged(values.drop_last(), ahead), values.last(), ahead)
    }
}

/// Nothing is ahead of itself, being ahead carries over, and so does not being
/// ahead.
pub open spec fn is_ranking<A>(ahead: spec_fn(A, A) -> bool) -> bool {
    &&& forall|a: A| !#[trigger] ahead(a, a)
    &&& forall|a: A, b: A, c: A| #[trigger] ahead(a, b) && #[trigger] ahead(b, c) ==> ahead(a, c)
    &&& forall|a: A, b: A, c: A|
        !#[trigger] ahead(a, b) && !#[trigger] ahead(b, c) ==> !ahead(a, c)
}

/// Nothing is ahead of what comes before it.
pub open spec fn in_order<A>(values: Seq<A>, ahead: spec_fn(A, A) -> bool) -> bool {
    forall|i: int, j: int| 0 <= i < j < values.len() ==> !ahead(#[trigger] values[j], #[trigger] values[i])
}

/// Placing a value puts it in at one position and moves nothing else.
pub proof fn lemma_placed_at<A>(sorted: Seq<A>, value: A, ahead: spec_fn(A, A) -> bool, at: int)
    requires
        0 <= at <= sorted.len(),
        at > 0 ==> !ahead(value, sorted[at - 1]),
        forall|k: int| at <= k < sorted.len() ==> ahead(value, #[trigger] sorted[k]),
    ensures
        placed(sorted, value, ahead) == sorted.insert(at, value),
    decreases sorted.len(),
{
    if sorted.len() > 0 && at < sorted.len() {
        let rest = sorted.drop_last();
        assert(ahead(value, sorted[sorted.len() - 1]));
        assert forall|k: int| at <= k < rest.len() implies ahead(value, #[trigger] rest[k]) by {
            assert(rest[k] == sorted[k]);
        }
        lemma_placed_at(rest, value, ahead, at);
        assert(rest.insert(at, value).push(sorted.last()) =~= sorted.insert(at, value));
    } else {
        assert(sorted.push(value) =~= sorted.insert(at, value));
    }
}

/// There is a position to place a value at.
pub proof fn lemma_placed_somewhere<A>(sorted: Seq<A>, value: A, ahead: spec_fn(A, A) -> bool) -> (at:
    int)
    ensures
        0 <= at <= sorted.len(),
        at > 0 ==> !ahead(value, sorted[at - 1]),
        forall|k: int| at <= k < sorted.len() ==> ahead(value, #[trigger] sorted[k]),
        placed(sorted, value, ahead) == sorted.insert(at, value),
    decreases sorted.len(),
{
    if sorted.len() == 0 || !ahead(value, sorted.last()) {
        lemma_placed_at(sorted, value, ahead, sorted.len() as int);
        sorted.len() as int
    } else {
        let at = lemma_placed_somewhere(sorted.drop_last(), value, ahead);
        assert forall|k: int| at <= k < sorted.len() implies ahead(value, #[trigger] sorted[k]) by {
            if k < sorted.len() - 1 {
                assert(ahead(value, sorted.drop_last()[k]));
            }
        }
        lemma_placed_at(sorted, value, ahead, at);
        at
    }
}

proof fn lemma_placed_in_order<A>(sorted: Seq<A>, value: A, ahead: spec_fn(A, A) -> bool)
    requires
        is_ranking(ahead),
        in_order(sorted, ahead),
    ensures
        in_order(placed(sorted, value, ahead), ahead),
{
    let at = lemma_placed_somewhere(sorted, value, ahead);
    let out = sorted.insert(at, value);
    assert forall|i: int, j: int| 0 <= i < j < out.len() implies !ahead(
        #[trigger] out[j],
        #[trigger] out[i],
    ) by {
        let si = if i < at { i } else { i - 1 };
        let sj = if j < at { j } else { j - 1 };
        if i == at {
            assert(ahead(value, sorted[sj]));
            if ahead(sorted[sj], value) {
                assert(ahead(value, value));
            }
        } else if j == at {
            assert(!ahead(value, sorted[at - 1]));
            if i < at - 1 {
                assert(!ahead(sorted[at - 1], sorted[i]));
            }
        } else {
            assert(out[i] == sorted[si]);
            assert(out[j] == sorted[sj]);
        }
    }
}

/// Arranged values are in order.
pub proof fn lemma_arranged_in_order<A>(values: Seq<A>, ahead: spec_fn(A, A) -> bool)
    requires
        is_ranking(ahead),
    ensures
        in_order(arranged(values, ahead), ahead),
    decreases values.len(),
{
    if values.len() > 0 {
        lemma_arranged_in_order(values.drop_last(), ahead);
        lemma_placed_in_order(arranged(values.drop_last(), ahead), values.last(), ahead);
    }
}

/// Arranging neither loses nor adds a value.
pub proof fn lemma_arranged_same_values<A>(values: Seq<A>, ahead: spec_fn(A, A) -> bool)
    ensures
        arranged(values, ahead).to_multiset() == values.to_multiset(),
        arranged(values, ahead).len() == values.len(),
    decreases values.len(),
{
    broadcast use vstd::seq_lib::group_to_multiset_ensures;

    if values.len() > 0 {
        let rest = values.drop_last();
        lemma_arranged_same_values(rest, ahead);
        let at = lemma_placed_somewhere(arranged(rest, ahead), values.last(), ahead);
        let sorted = arranged(rest, ahead);
        vstd::seq_lib::to_multiset_insert(sorted, at, values.last());
        assert(values =~= rest.push(values.last()));
        vstd::seq_lib::to_multiset_build(rest, values.last());
    }
}

} // verus!
