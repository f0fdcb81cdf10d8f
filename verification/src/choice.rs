//! Picking the first of the highest-valued candidates.

use vstd::prelude::*;

verus! {

/// The index of the highest value in `values`; of several equally high
/// ones, the first. Zero for an empty sequence.
pub open spec fn first_maximum(values: Seq<int>) -> int
    decreases values.len(),
{
    if values.len() <= 1 {
        0
    } else {
        let earlier = first_maximum(values.drop_last());
        if values.last() > values[earlier] {
            values.len() - 1
        } else {
            earlier
        }
    }
}

/// `first_maximum` names an element that none exceeds and that every earlier
/// element falls short of.
pub proof fn lemma_first_maximum(values: Seq<int>)
    requires
        values.len() > 0,
    ensures
        0 <= first_maximum(values) < values.len(),
        forall|j: int|
            0 <= j < values.len() ==> #[trigger] values[j] <= values[first_maximum(values)],
        forall|j: int|
            0 <= j < first_maximum(values) ==> #[trigger] values[j] < values[first_maximum(values)],
    decreases values.len(),
{
    if values.len() > 1 {
        lemma_first_maximum(values.drop_last());
        let earlier = first_maximum(values.drop_last());
        assert forall|j: int| 0 <= j < values.len() implies #[trigger] values[j] <= values[first_maximum(
            values,
        )] by {
            if j < values.len() - 1 {
                assert(values.drop_last()[j] == values[j]);
            }
        }
        assert forall|j: int| 0 <= j < first_maximum(values) implies #[trigger] values[j]
            < values[first_maximum(values)] by {
            assert(values.drop_last()[j] == values[j]);
        }
    }
}

/// Appending a value moves the first maximum to it exactly when it exceeds
/// the maximum so far.
pub proof fn lemma_first_maximum_push(values: Seq<int>, value: int)
    requires
        values.len() > 0,
    ensures
        first_maximum(values.push(value)) == if value > values[first_maximum(values)] {
            values.len() as int
        } else {
            first_maximum(values)
        },
{
    lemma_first_maximum(values);
    let longer = values.push(value);
    assert(longer.drop_last() =~= values);
    assert(longer.last() == value);
    assert(longer[first_maximum(values)] == values[first_maximum(values)]);
}

} // verus!
