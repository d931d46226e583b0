//! Batches of updates and their order. A batch is applied in ascending order
//! of its timestamps, taken in the total order of doubles; updates with the
//! same timestamp keep the order in which they came.
use crate::double::Double;
use vstd::prelude::*;

verus! {

/// Whether the timestamps never go down from one update to the next.
pub open spec fn ascending<E>(updates: Seq<(Double, usize, E)>) -> bool {
    forall|i: int, j: int| 0 <= i <= j < updates.len() ==> updates[i].0.precedes(updates[j].0)
}

/// An ordered batch with one more update: it goes behind the last update
/// whose timestamp is not later than its own.
pub open spec fn inserted<E>(ordered: Seq<(Double, usize, E)>, update: (Double, usize, E)) -> Seq<
    (Double, usize, E),
>
    decreases ordered.len(),
{
    if ordered.len() == 0 || ordered.last().0.precedes(update.0) {
        ordered.push(update)
    } else {
        inserted(ordered.drop_last(), update).push(ordered.last())
    }
}

/// The batch in the order in which it is applied.
pub open spec fn sorted_by_time<E>(updates: Seq<(Double, usize, E)>) -> Seq<(Double, usize, E)>
    decreases updates.len(),
{
    if updates.len() == 0 {
        updates
    } else {
        inserted(sorted_by_time(updates.drop_last()), updates.last())
    }
}

/// Inserting keeps a batch ascending, adds the update and nothing else.
pub proof fn inserted_is_ordered<E>(ordered: Seq<(Double, usize, E)>, update: (Double, usize, E))
    requires
        ascending(ordered),
    ensures
        ascending(inserted(ordered, update)),
        inserted(ordered, update).len() == ordered.len() + 1,
        inserted(ordered, update).to_multiset() == ordered.to_multiset().insert(update),
        forall|i: int|
            0 <= i < inserted(ordered, update).len() ==> #[trigger] inserted(ordered, update)[i]
                == update || exists|k: int|
                0 <= k < ordered.len() && ordered[k] == inserted(ordered, update)[i],
    decreases ordered.len(),
{
    broadcast use vstd::seq_lib::group_to_multiset_ensures;

    let out = inserted(ordered, update);
    if ordered.len() == 0 || ordered.last().0.precedes(update.0) {
        assert forall|i: int, j: int| 0 <= i <= j < out.len() implies out[i].0.precedes(out[j].0) by {
            if j == ordered.len() && i < j {
                assert(ordered[i].0.precedes(ordered.last().0));
            }
        }
        assert forall|i: int| 0 <= i < out.len() implies #[trigger] out[i] == update || exists|k: int|
            0 <= k < ordered.len() && ordered[k] == out[i] by {
            if i < ordered.len() {
                assert(ordered[i] == out[i]);
            }
        }
    } else {
        let front = ordered.drop_last();
        assert forall|i: int, j: int| 0 <= i <= j < front.len() implies front[i].0.precedes(
            front[j].0,
        ) by {
            assert(ordered[i].0.precedes(ordered[j].0));
        }
        inserted_is_ordered(front, update);
        let inner = inserted(front, update);
        assert forall|i: int, j: int| 0 <= i <= j < out.len() implies out[i].0.precedes(out[j].0) by {
            if j == inner.len() && i < j {
                if inner[i] != update {
                    let k = choose|k: int| 0 <= k < front.len() && front[k] == inner[i];
                    assert(ordered[k].0.precedes(ordered.last().0));
                }
            } else if j < inner.len() {
                assert(inner[i].0.precedes(inner[j].0));
            }
        }
        assert forall|i: int| 0 <= i < out.len() implies #[trigger] out[i] == update || exists|k: int|
            0 <= k < ordered.len() && ordered[k] == out[i] by {
            if i < inner.len() {
                if inner[i] != update {
                    let k = choose|k: int| 0 <= k < front.len() && front[k] == inner[i];
                    assert(ordered[k] == out[i]);
                }
            } else {
                assert(ordered[ordered.len() - 1] == out[i]);
            }
        }
        assert(ordered =~= front.push(ordered.last()));
        assert(out.to_multiset() =~= ordered.to_multiset().insert(update));
    }
}

/// The applied order is ascending and holds the updates of the batch, each as
/// often as the batch does.
pub proof fn sorted_by_time_is_ordered<E>(updates: Seq<(Double, usize, E)>)
    ensures
        ascending(sorted_by_time(updates)),
        sorted_by_time(updates).len() == updates.len(),
        sorted_by_time(updates).to_multiset() == updates.to_multiset(),
    decreases updates.len(),
{
    broadcast use vstd::seq_lib::group_to_multiset_ensures;

    if updates.len() > 0 {
        let front = updates.drop_last();
        sorted_by_time_is_ordered(front);
        inserted_is_ordered(sorted_by_time(front), updates.last());
        assert(updates =~= front.push(updates.last()));
    }
}

/// A batch that is ascending already is applied as it stands.
pub proof fn sorted_by_time_keeps_ordered<E>(updates: Seq<(Double, usize, E)>)
    requires
        ascending(updates),
    ensures
        sorted_by_time(updates) == updates,
    decreases updates.len(),
{
    if updates.len() > 0 {
        let front = updates.drop_last();
        assert forall|i: int, j: int| 0 <= i <= j < front.len() implies front[i].0.precedes(
            front[j].0,
        ) by {
            assert(updates[i].0.precedes(updates[j].0));
        }
        sorted_by_time_keeps_ordered(front);
        if front.len() > 0 {
            assert(updates[front.len() - 1].0.precedes(updates[front.len() as int].0));
        }
        assert(updates =~= front.push(updates.last()));
    }
}

/// Where everything from a place on is later than the update, and what stands
/// before the place is not, the update goes to that place.
proof fn inserted_at<E>(ordered: Seq<(Double, usize, E)>, update: (Double, usize, E), place: int)
    requires
        0 <= place <= ordered.len(),
        forall|k: int| place <= k < ordered.len() ==> !ordered[k].0.precedes(update.0),
        place > 0 ==> ordered[place - 1].0.precedes(update.0),
    ensures
        inserted(ordered, update) == ordered.insert(place, update),
    decreases ordered.len(),
{
    if place == ordered.len() {
        assert(ordered.insert(place, update) =~= ordered.push(update));
    } else {
        let front = ordered.drop_last();
        assert(!ordered[ordered.len() - 1].0.precedes(update.0));
        assert forall|k: int| place <= k < front.len() implies !front[k].0.precedes(update.0) by {
            assert(front[k] == ordered[k]);
        }
        if place > 0 {
            assert(front[place - 1] == ordered[place - 1]);
        }
        inserted_at(front, update, place);
        assert(ordered.insert(place, update) =~= front.insert(place, update).push(ordered.last()));
    }
}

/// The batch in the order in which it is applied: ascending by timestamp,
/// updates with equal timestamps in the order in which they came.
pub fn sort_by_time<E: Copy>(updates: &Vec<(Double, usize, E)>) -> (ordered: Vec<
    (Double, usize, E),
>)
    ensures
        ordered@ == sorted_by_time(updates@),
{
    let mut ordered: Vec<(Double, usize, E)> = Vec::new();
    let mut next: usize = 0;
    while next < updates.len()
        invariant
            next <= updates@.len(),
            ordered@ == sorted_by_time(updates@.take(next as int)),
            ordered@.len() == next,
        decreases updates@.len() - next,
    {
        let update = updates[next];
        let mut place: usize = ordered.len();
        while place > 0 && !ordered[place - 1].0.total_le(update.0)
            invariant
                place <= ordered@.len(),
                forall|k: int| place <= k < ordered@.len() ==> !ordered@[k].0.precedes(update.0),
            decreases place,
        {
            place -= 1;
        }
        proof {
            inserted_at(ordered@, update, place as int);
            assert(updates@.take(next + 1).drop_last() =~= updates@.take(next as int));
        }
        ordered.insert(place, update);
        next += 1;
    }
    proof {
        assert(updates@.take(next as int) =~= updates@);
    }
    ordered
}

} // verus!
