//! Laws of the slot pool, each proved from the model's definitions.

use crate::pool::{Pool, Slot, SlotContent};
use crate::slot_tracker::{SlotState, SlotStateTypes, SlotTrackerError};
use vstd::prelude::*;
use vstd::set::axiom_set_contains_len;
use vstd::set_lib::{lemma_int_range, lemma_len_subset, lemma_set_disjoint_lens, set_int_range};

verus! {

/// Every slot is in exactly one of the two states.
pub proof fn lemma_one_state_each<T: SlotStateTypes>(pool: Pool<T>, index: int)
    requires
        pool.in_bounds(index),
    ensures
        pool.indices_in(SlotState::Free).contains(index) != pool.indices_in(
            SlotState::Occupied,
        ).contains(index),
{
}

/// In a well-formed pool the free stack holds exactly the indices of the free
/// slots, and its length is their number.
pub proof fn lemma_free_stack_counts_free<T: SlotStateTypes>(pool: Pool<T>)
    requires
        pool.wf(),
    ensures
        pool.free.to_set() == pool.indices_in(SlotState::Free),
        pool.indices_in(SlotState::Free).finite(),
        pool.num_free() == pool.indices_in(SlotState::Free).len(),
{
    assert(pool.free.to_set() =~= pool.indices_in(SlotState::Free)) by {
        assert forall|i: int| pool.free.to_set().contains(i) implies pool.indices_in(
            SlotState::Free,
        ).contains(i) by {
            let k = choose|k: int| 0 <= k < pool.free.len() && pool.free[k] == i;
            assert(pool.in_bounds(pool.free[k]));
        }
    }
    pool.free.unique_seq_to_set();
}

/// Capacity is conserved: in a well-formed pool the free slots and the
/// occupied slots together are all the slots, and `num_occupied` is the
/// number of slots in state `Occupied`.
pub proof fn lemma_capacity_conserved<T: SlotStateTypes>(pool: Pool<T>)
    requires
        pool.wf(),
    ensures
        pool.num_free() + pool.num_occupied() == pool.capacity(),
        0 <= pool.num_occupied() <= pool.capacity(),
        pool.indices_in(SlotState::Occupied).finite(),
        pool.num_occupied() == pool.indices_in(SlotState::Occupied).len(),
{
    let free = pool.indices_in(SlotState::Free);
    let occupied = pool.indices_in(SlotState::Occupied);
    let all = set_int_range(0, pool.capacity() as int);
    lemma_free_stack_counts_free(pool);
    lemma_int_range(0, pool.capacity() as int);
    lemma_len_subset(occupied, all);
    assert(free + occupied =~= all) by {
        assert forall|i: int| all.contains(i) implies (free + occupied).contains(i) by {
            lemma_one_state_each(pool, i);
        }
    }
    assert(free.disjoint(occupied));
    lemma_set_disjoint_lens(free, occupied);
}

/// An occupied slot is not on the free stack, and while some slot is occupied,
/// fewer slots are free than there are slots.
pub proof fn lemma_occupied_slot_is_not_free<T: SlotStateTypes>(pool: Pool<T>, index: int)
    requires
        pool.wf(),
        pool.in_bounds(index),
        pool.state(index) == SlotState::Occupied,
    ensures
        pool.num_free() < pool.capacity(),
        !pool.free.contains(index),
{
    lemma_capacity_conserved(pool);
    assert(pool.indices_in(SlotState::Occupied).contains(index));
    axiom_set_contains_len(pool.indices_in(SlotState::Occupied), index);
}

/// A pool built from pairs is well formed, has one slot per pair, and all of
/// its slots are free.
pub proof fn lemma_fresh_is_all_free<T: SlotStateTypes>(pairs: Seq<(T::Common, T::Free)>)
    ensures
        Pool::<T>::fresh(pairs).wf(),
        Pool::<T>::fresh(pairs).capacity() == pairs.len(),
        Pool::<T>::fresh(pairs).num_free() == pairs.len(),
        Pool::<T>::fresh(pairs).num_occupied() == 0,
{
    let pool = Pool::<T>::fresh(pairs);
    assert forall|i: int| pool.in_bounds(i) && #[trigger] pool.state(i)
        == SlotState::Free implies pool.free.contains(i) by {
        assert(pool.free[pairs.len() - 1 - i] == i);
    }
}

/// `occupy` keeps a pool well formed and its capacity fixed. It takes one slot
/// from the free slots, unless there is none.
pub proof fn lemma_occupy_keeps_wf<T: SlotStateTypes>(pool: Pool<T>, value: T::Occupied)
    requires
        pool.wf(),
    ensures
        pool.occupy(value).wf(),
        pool.occupy(value).capacity() == pool.capacity(),
        pool.occupy(value).num_free() == if pool.num_free() == 0 {
            0
        } else {
            pool.num_free() - 1
        },
{
    if pool.free.len() > 0 {
        let after = pool.occupy(value);
        let index = pool.free[0];
        assert(pool.in_bounds(index));
        assert forall|k: int| 0 <= k < after.free.len() implies after.free[k] == pool.free[k + 1]
            && after.free[k] != index by {}
        assert forall|i: int| after.in_bounds(i) && #[trigger] after.state(i)
            == SlotState::Free implies after.free.contains(i) by {
            assert(pool.in_bounds(i) && pool.state(i) == SlotState::Free);
            assert(pool.free.contains(i));
            let k = choose|k: int| 0 <= k < pool.free.len() && pool.free[k] == i;
            assert(after.free[k - 1] == i);
        }
    }
}

/// `free` keeps a pool well formed and its capacity fixed. It adds one slot to
/// the free slots where it succeeds, and changes nothing where it is refused.
pub proof fn lemma_free_keeps_wf<T: SlotStateTypes>(pool: Pool<T>, index: int, value: T::Free)
    requires
        pool.wf(),
    ensures
        pool.free(index, value).wf(),
        pool.free(index, value).capacity() == pool.capacity(),
        pool.free(index, value).num_free() == if pool.free_result(index) is Ok {
            pool.num_free() + 1
        } else {
            pool.num_free()
        },
        pool.free_result(index) is Err ==> pool.free(index, value) == pool,
{
    if pool.free_result(index) is Ok {
        let after = pool.free(index, value);
        lemma_occupied_slot_is_not_free(pool, index);
        assert forall|k: int| 0 < k < after.free.len() implies after.free[k] == pool.free[k - 1]
            && after.free[k] != index by {}
        assert forall|i: int| after.in_bounds(i) && #[trigger] after.state(i)
            == SlotState::Free implies after.free.contains(i) by {
            if i == index {
                assert(after.free[0] == i);
            } else {
                assert(pool.in_bounds(i) && pool.state(i) == SlotState::Free);
                assert(pool.free.contains(i));
                let k = choose|k: int| 0 <= k < pool.free.len() && pool.free[k] == i;
                assert(after.free[k + 1] == i);
            }
        }
    }
}

/// Writing to a slot's common payload, or to the payload of its current
/// state, keeps the pool well formed, every slot in its state, and the free
/// stack as it is.
pub proof fn lemma_payload_writes_keep_wf<T: SlotStateTypes>(
    pool: Pool<T>,
    index: int,
    common: T::Common,
    content: SlotContent<T>,
)
    requires
        pool.wf(),
        pool.in_bounds(index),
        content.state() == pool.state(index),
    ensures
        pool.with_common(index, common).wf(),
        pool.with_content(index, content).wf(),
        forall|i: int|
            pool.in_bounds(i) ==> #[trigger] pool.with_common(index, common).state(i) == pool.state(
                i,
            ),
        forall|i: int|
            pool.in_bounds(i) ==> #[trigger] pool.with_content(index, content).state(i)
                == pool.state(i),
{
    let a = pool.with_common(index, common);
    let b = pool.with_content(index, content);
    assert forall|i: int| pool.in_bounds(i) implies #[trigger] a.state(i) == pool.state(i)
        && #[trigger] b.state(i) == pool.state(i) by {}
    assert forall|i: int| a.in_bounds(i) && #[trigger] a.state(i)
        == SlotState::Free implies a.free.contains(i) by {
        assert(pool.in_bounds(i) && pool.state(i) == SlotState::Free);
    }
    assert forall|i: int| b.in_bounds(i) && #[trigger] b.state(i)
        == SlotState::Free implies b.free.contains(i) by {
        assert(pool.in_bounds(i) && pool.state(i) == SlotState::Free);
    }
}

/// Index stability: neither `occupy` nor `free` touches the common payload of
/// any slot, so an index names the same common payload before and after.
pub proof fn lemma_transitions_keep_common<T: SlotStateTypes>(
    pool: Pool<T>,
    occupied: T::Occupied,
    index: int,
    free: T::Free,
    i: int,
)
    requires
        pool.wf(),
        pool.in_bounds(i),
    ensures
        pool.occupy(occupied).in_bounds(i),
        pool.occupy(occupied).slots[i].common == pool.slots[i].common,
        pool.free(index, free).in_bounds(i),
        pool.free(index, free).slots[i].common == pool.slots[i].common,
{
    if pool.free.len() > 0 {
        assert(pool.in_bounds(pool.free[0]));
    }
}

/// A transition changes one slot only: after `occupy`, every slot but the one
/// claimed is as before, and after `free(index, ..)` every slot but `index`.
pub proof fn lemma_transitions_touch_one_slot<T: SlotStateTypes>(
    pool: Pool<T>,
    occupied: T::Occupied,
    index: int,
    free: T::Free,
    i: int,
)
    requires
        pool.wf(),
        pool.in_bounds(i),
    ensures
        pool.next_free() != Some(i) ==> pool.occupy(occupied).slots[i] == pool.slots[i],
        i != index ==> pool.free(index, free).slots[i] == pool.slots[i],
{
    if pool.free.len() > 0 {
        assert(pool.in_bounds(pool.free[0]));
    }
}

/// No double free: once `free` has been called for an index within bounds, a
/// second `free` for that index, with no `occupy` in between, is refused with
/// `StateMismatch`, and changes nothing.
pub proof fn lemma_no_double_free<T: SlotStateTypes>(
    pool: Pool<T>,
    index: int,
    first: T::Free,
    second: T::Free,
)
    requires
        pool.wf(),
        pool.in_bounds(index),
    ensures
        pool.free(index, first).free_result(index) == Err::<T::Occupied, _>(
            SlotTrackerError::StateMismatch,
        ),
        pool.free(index, first).free(index, second) == pool.free(index, first),
{
}

/// No phantom allocation: `occupy` returns nothing exactly when no slot is
/// free, and then it changes nothing. Otherwise it returns a free slot's
/// index with that slot's payload, and the slot is occupied afterwards.
pub proof fn lemma_occupy_fails_only_when_full<T: SlotStateTypes>(
    pool: Pool<T>,
    value: T::Occupied,
)
    requires
        pool.wf(),
    ensures
        pool.occupy_result() is None <==> pool.num_free() == 0,
        pool.occupy_result() is None <==> pool.indices_in(SlotState::Free).is_empty(),
        pool.occupy_result() is None ==> pool.occupy(value) == pool,
        pool.occupy_result() matches Some((index, payload)) ==> {
            &&& pool.in_bounds(index)
            &&& pool.slots[index].content == SlotContent::<T>::Free(payload)
            &&& pool.occupy(value).slots[index].content == SlotContent::<T>::Occupied(value)
        },
{
    lemma_free_stack_counts_free(pool);
    if pool.free.len() > 0 {
        assert(pool.in_bounds(pool.free[0]));
        assert(pool.state(pool.free[0]) == SlotState::Free);
        assert(pool.indices_in(SlotState::Free).contains(pool.free[0]));
    } else {
        pool.indices_in(SlotState::Free).lemma_len0_is_empty();
    }
}

/// The pool built from `pairs`, after one `occupy` for each of `values`, has
/// the slots below `pairs.len() - values.len()` on its free stack, the highest
/// on top.
proof fn lemma_fresh_after_occupies<T: SlotStateTypes>(
    pairs: Seq<(T::Common, T::Free)>,
    values: Seq<T::Occupied>,
)
    requires
        values.len() <= pairs.len(),
    ensures
        Pool::<T>::fresh(pairs).occupy_each(values).free == Seq::new(
            (pairs.len() - values.len()) as nat,
            |k: int| pairs.len() - values.len() - 1 - k,
        ),
        Pool::<T>::fresh(pairs).occupy_each(values).slots.len() == pairs.len(),
        forall|i: int|
            0 <= i < pairs.len() - values.len() ==> (#[trigger] Pool::<T>::fresh(
                pairs,
            ).occupy_each(values).slots[i]) == (Slot::<T> {
                common: pairs[i].0,
                content: SlotContent::Free(pairs[i].1),
            }),
    decreases values.len(),
{
    let start = Pool::<T>::fresh(pairs);
    if values.len() > 0 {
        lemma_fresh_after_occupies::<T>(pairs, values.drop_last());
        let before = start.occupy_each(values.drop_last());
        let after = start.occupy_each(values);
        assert(after == before.occupy(values.last()));
        assert(before.free[0] == pairs.len() - values.len());
        assert(after.free =~= Seq::new(
            (pairs.len() - values.len()) as nat,
            |k: int| pairs.len() - values.len() - 1 - k,
        ));
    } else {
        assert(start.occupy_each(values) == start);
    }
}

/// Last in, first out: from a pool built from `pairs`, consecutive calls of
/// `occupy` with no `free` in between claim the slots from the last to the
/// first. After `values.len()` such calls the next one returns index
/// `pairs.len() - 1 - values.len()` with the free payload that the slot was
/// built with, and once every slot is claimed it returns nothing.
pub proof fn lemma_fresh_pool_is_claimed_last_first<T: SlotStateTypes>(
    pairs: Seq<(T::Common, T::Free)>,
    values: Seq<T::Occupied>,
)
    requires
        values.len() <= pairs.len(),
    ensures
        values.len() < pairs.len() ==> Pool::<T>::fresh(pairs).occupy_each(
            values,
        ).occupy_result() == Some(
            (pairs.len() - 1 - values.len(), pairs[pairs.len() - 1 - values.len()].1),
        ),
        values.len() == pairs.len() ==> Pool::<T>::fresh(pairs).occupy_each(
            values,
        ).occupy_result() is None,
{
    lemma_fresh_after_occupies::<T>(pairs, values);
}

/// Round trip: after a slot has been freed with a payload, the next `occupy`
/// claims that very slot and returns that payload. The slot is then occupied
/// with the new value, and the rest of the pool, the free stack included, is
/// as it was before the slot was freed.
pub proof fn lemma_free_then_occupy<T: SlotStateTypes>(
    pool: Pool<T>,
    index: int,
    payload: T::Free,
    value: T::Occupied,
)
    requires
        pool.wf(),
        pool.in_bounds(index),
        pool.state(index) == SlotState::Occupied,
    ensures
        pool.free(index, payload).occupy_result() == Some((index, payload)),
        pool.free(index, payload).occupy(value).state(index) == SlotState::Occupied,
        pool.free(index, payload).occupy(value) == pool.with_content(
            index,
            SlotContent::Occupied(value),
        ),
{
    let freed = pool.free(index, payload);
    let again = freed.occupy(value);
    assert(freed.free.drop_first() =~= pool.free);
    assert(again.slots =~= pool.with_content(index, SlotContent::Occupied(value)).slots);
}

/// Bounds checking: the capacity itself, and every index above it, is out of
/// bounds. `get_state` and `free` answer `OutOfBounds` for it, and `free`
/// changes nothing.
pub proof fn lemma_capacity_is_out_of_bounds<T: SlotStateTypes>(
    pool: Pool<T>,
    index: int,
    value: T::Free,
)
    requires
        index >= pool.capacity(),
    ensures
        !pool.in_bounds(index),
        pool.get_state(index) == Err::<SlotState, _>(SlotTrackerError::OutOfBounds),
        pool.free_result(index) == Err::<T::Occupied, _>(SlotTrackerError::OutOfBounds),
        pool.free(index, value) == pool,
{
}

} // verus!
