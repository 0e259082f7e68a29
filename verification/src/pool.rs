//! The mathematical model of a slot tracker: what each slot holds, and the
//! stack of free indices. The tracker's contracts are stated over this model.

use crate::slot_tracker::{SlotState, SlotStateTypes, SlotTrackerError};
use vstd::prelude::*;

verus! {

/// What a slot holds for its current state.
pub enum SlotContent<T: SlotStateTypes> {
    Free(T::Free),
    Occupied(T::Occupied),
}

impl<T: SlotStateTypes> SlotContent<T> {
    pub open spec fn state(self) -> SlotState {
        match self {
            SlotContent::Free(_) => SlotState::Free,
            SlotContent::Occupied(_) => SlotState::Occupied,
        }
    }
}

/// One slot: the payload it keeps across transitions, and what it holds for
/// its current state.
pub struct Slot<T: SlotStateTypes> {
    pub common: T::Common,
    pub content: SlotContent<T>,
}

/// A tracker as a mathematical value: the slots by index, and the stack of
/// free indices with the index that is occupied next in front.
pub struct Pool<T: SlotStateTypes> {
    pub slots: Seq<Slot<T>>,
    pub free: Seq<int>,
}

impl<T: SlotStateTypes> Pool<T> {
    pub open spec fn capacity(self) -> nat {
        self.slots.len()
    }

    pub open spec fn num_free(self) -> nat {
        self.free.len()
    }

    pub open spec fn num_occupied(self) -> int {
        self.capacity() - self.num_free()
    }

    pub open spec fn in_bounds(self, index: int) -> bool {
        0 <= index < self.slots.len()
    }

    pub open spec fn state(self, index: int) -> SlotState
        recommends
            self.in_bounds(index),
    {
        self.slots[index].content.state()
    }

    /// The indices of the slots in state `state`.
    pub open spec fn indices_in(self, state: SlotState) -> Set<int> {
        Set::new(|i: int| self.in_bounds(i) && self.state(i) == state)
    }

    /// The free stack names exactly the free slots, each once.
    pub open spec fn wf(self) -> bool {
        &&& self.free.no_duplicates()
        &&& forall|k: int|
            0 <= k < self.free.len() ==> self.in_bounds(#[trigger] self.free[k]) && self.state(
                self.free[k],
            ) == SlotState::Free
        &&& forall|i: int|
            self.in_bounds(i) && #[trigger] self.state(i) == SlotState::Free
                ==> self.free.contains(i)
    }

    /// A pool of `pairs.len()` free slots, slot `i` made of `pairs[i]`. The
    /// slots are stacked in order, so the last one is on top.
    pub open spec fn fresh(pairs: Seq<(T::Common, T::Free)>) -> Pool<T> {
        Pool {
            slots: Seq::new(
                pairs.len(),
                |i: int| Slot { common: pairs[i].0, content: SlotContent::Free(pairs[i].1) },
            ),
            free: Seq::new(pairs.len(), |k: int| pairs.len() - 1 - k),
        }
    }

    /// The index that is occupied next, if any slot is free.
    pub open spec fn next_free(self) -> Option<int> {
        if self.free.len() == 0 {
            None
        } else {
            Some(self.free[0])
        }
    }

    /// What `get_state` answers for `index`.
    pub open spec fn get_state(self, index: int) -> Result<SlotState, SlotTrackerError> {
        if self.in_bounds(index) {
            Ok(self.state(index))
        } else {
            Err(SlotTrackerError::OutOfBounds)
        }
    }

    /// What `occupy` returns: the index on top of the free stack with the
    /// payload that its slot holds, or nothing where no slot is free.
    pub open spec fn occupy_result(self) -> Option<(int, T::Free)> {
        if self.free.len() == 0 {
            None
        } else {
            Some((self.free[0], self.slots[self.free[0]].content->Free_0))
        }
    }

    /// The pool after `occupy(value)`: the slot on top of the free stack
    /// leaves it and holds `value`. Where no slot is free, the pool is
    /// unchanged.
    pub open spec fn occupy(self, value: T::Occupied) -> Pool<T> {
        if self.free.len() == 0 {
            self
        } else {
            Pool {
                slots: self.slots.update(
                    self.free[0],
                    Slot {
                        common: self.slots[self.free[0]].common,
                        content: SlotContent::Occupied(value),
                    },
                ),
                free: self.free.drop_first(),
            }
        }
    }

    /// The pool after one `occupy` for each of `values`, in order.
    pub open spec fn occupy_each(self, values: Seq<T::Occupied>) -> Pool<T>
        decreases values.len(),
    {
        if values.len() == 0 {
            self
        } else {
            self.occupy_each(values.drop_last()).occupy(values.last())
        }
    }

    /// What `free` returns for `index`: the payload of an occupied slot, or
    /// the reason for which the call is refused.
    pub open spec fn free_result(self, index: int) -> Result<T::Occupied, SlotTrackerError> {
        if !self.in_bounds(index) {
            Err(SlotTrackerError::OutOfBounds)
        } else {
            match self.slots[index].content {
                SlotContent::Occupied(value) => Ok(value),
                SlotContent::Free(_) => Err(SlotTrackerError::StateMismatch),
            }
        }
    }

    /// The pool after `free(index, value)`: an occupied slot holds `value`
    /// and goes on top of the free stack. Where the call is refused, the pool
    /// is unchanged.
    pub open spec fn free(self, index: int, value: T::Free) -> Pool<T> {
        if self.free_result(index) is Ok {
            Pool {
                slots: self.slots.update(
                    index,
                    Slot { common: self.slots[index].common, content: SlotContent::Free(value) },
                ),
                free: seq![index] + self.free,
            }
        } else {
            self
        }
    }

    /// The pool with the common payload of slot `index` replaced by `common`.
    pub open spec fn with_common(self, index: int, common: T::Common) -> Pool<T>
        recommends
            self.in_bounds(index),
    {
        Pool {
            slots: self.slots.update(index, Slot { common, content: self.slots[index].content }),
            free: self.free,
        }
    }

    /// The pool with what slot `index` holds for its state replaced by
    /// `content`.
    pub open spec fn with_content(self, index: int, content: SlotContent<T>) -> Pool<T>
        recommends
            self.in_bounds(index),
            self.state(index) == content.state(),
    {
        Pool {
            slots: self.slots.update(index, Slot { common: self.slots[index].common, content }),
            free: self.free,
        }
    }
}

} // verus!
