//! A fixed-capacity pool of slots. Each slot is either free or occupied and
//! carries a payload for its current state next to a payload that it keeps
//! across transitions. Free slots form a stack: the slot freed last is the one
//! occupied next.

use crate::pool::{Pool, Slot, SlotContent};
use crate::pool_laws::{
    lemma_capacity_conserved, lemma_fresh_is_all_free, lemma_free_keeps_wf, lemma_occupy_keeps_wf,
    lemma_occupied_slot_is_not_free, lemma_payload_writes_keep_wf,
};
use vstd::prelude::*;

verus! {

/// The lifecycle phase of one slot.
#[derive(Debug, Copy, Clone, PartialOrd, Ord, PartialEq, Eq, Structural, Hash)]
pub enum SlotState {
    Free,
    Occupied,
}

impl SlotState {
    pub fn is_free(&self) -> (r: bool)
        ensures
            r == (*self == SlotState::Free),
    {
        match self {
            SlotState::Free => true,
            SlotState::Occupied => false,
        }
    }

    pub fn is_occupied(&self) -> (r: bool)
        ensures
            r == (*self == SlotState::Occupied),
    {
        match self {
            SlotState::Free => false,
            SlotState::Occupied => true,
        }
    }
}

/// Why an operation on a tracker was refused.
#[derive(Debug, Copy, Clone, PartialOrd, Ord, PartialEq, Eq, Structural, Hash)]
pub enum SlotTrackerError {
    /// The index is not below the capacity.
    OutOfBounds,
    /// The slot is not in the state that the operation needs.
    StateMismatch,
}

/// The three payload types of one kind of tracker: what a slot keeps across
/// transitions, what it holds while free, and what it holds while occupied.
pub trait SlotStateTypes {
    type Common;

    type Free;

    type Occupied;
}

struct Entry<T: SlotStateTypes> {
    common: T::Common,
    state: StateInternal<T>,
}

#[allow(inconsistent_fields)]
enum StateInternal<T: SlotStateTypes> {
    Free { free_list_next_index: Option<usize>, value: T::Free },
    Occupied { value: T::Occupied },
}

impl<T: SlotStateTypes> StateInternal<T> {
    spec fn content(self) -> SlotContent<T> {
        match self {
            StateInternal::Free { value, .. } => SlotContent::Free(value),
            StateInternal::Occupied { value } => SlotContent::Occupied(value),
        }
    }

    fn project(&self) -> (r: SlotState)
        ensures
            r == self.content().state(),
    {
        match self {
            StateInternal::Free { .. } => SlotState::Free,
            StateInternal::Occupied { .. } => SlotState::Occupied,
        }
    }
}

impl<T: SlotStateTypes> Entry<T> {
    spec fn slot(self) -> Slot<T> {
        Slot { common: self.common, content: self.state.content() }
    }
}

/// A pool of slots with constant-time `occupy` and `free`.
pub struct SlotTracker<T: SlotStateTypes> {
    entries: Vec<Entry<T>>,
    free_list_head_index: Option<usize>,
    num_free: usize,
    chain: Ghost<Seq<int>>,
}

impl<T: SlotStateTypes> View for SlotTracker<T> {
    type V = Pool<T>;

    closed spec fn view(&self) -> Pool<T> {
        Pool {
            slots: Seq::new(self.entries@.len(), |i: int| self.entries@[i].slot()),
            free: self.chain@,
        }
    }
}

impl<T: SlotStateTypes> SlotTracker<T> {
    /// The link stored in the `k`th slot of the free stack leads to the next one.
    spec fn linked(&self, k: int) -> bool {
        self.entries@[self.chain@[k]].state matches StateInternal::Free {
            free_list_next_index,
            ..
        } && Self::names(free_list_next_index, self.chain@.skip(k + 1))
    }

    /// `link` names the first index of `rest`, or nothing where `rest` is empty.
    spec fn names(link: Option<usize>, rest: Seq<int>) -> bool {
        match link {
            Some(index) => rest.len() > 0 && rest[0] == index,
            None => rest.len() == 0,
        }
    }

    /// The stored links, followed from the stored head, run through the free
    /// stack in order and end after its last index, and the stored counter is
    /// the length of the free stack.
    pub closed spec fn chained(&self) -> bool {
        &&& self.num_free == self.chain@.len()
        &&& Self::names(self.free_list_head_index, self.chain@)
        &&& forall|k: int| 0 <= k < self.chain@.len() ==> #[trigger] self.linked(k)
    }

    /// The indices met by following the stored links from `from`, over
    /// `steps` links at most.
    spec fn follow(&self, from: Option<usize>, steps: nat) -> Seq<int>
        decreases steps,
    {
        match from {
            Some(index) if steps > 0 && index < self.entries@.len() => {
                match self.entries@[index as int].state {
                    StateInternal::Free { free_list_next_index, .. } => seq![index as int]
                        + self.follow(free_list_next_index, (steps - 1) as nat),
                    StateInternal::Occupied { .. } => Seq::empty(),
                }
            },
            _ => Seq::empty(),
        }
    }

    /// The indices met by following the stored links from the stored head
    /// until they end.
    pub closed spec fn linked_indices(&self) -> Seq<int> {
        self.follow(self.free_list_head_index, self.entries@.len())
    }

    proof fn lemma_follow_spells_the_rest(&self, k: int, link: Option<usize>, steps: nat)
        requires
            self.wf(),
            0 <= k <= self.chain@.len(),
            Self::names(link, self.chain@.skip(k)),
            steps >= self.chain@.len() - k,
        ensures
            self.follow(link, steps) == self.chain@.skip(k),
        decreases steps,
    {
        if k == self.chain@.len() {
            assert(self.chain@.skip(k) =~= Seq::empty());
        } else {
            assert(self.chain@.skip(k)[0] == self.chain@[k]);
            assert(self@.in_bounds(self.chain@[k]));
            assert(self.linked(k));
            let next = self.entries@[self.chain@[k]].state->free_list_next_index;
            self.lemma_follow_spells_the_rest(k + 1, next, (steps - 1) as nat);
            assert(self.chain@.skip(k) =~= seq![self.chain@[k]] + self.chain@.skip(k + 1));
        }
    }

    /// In a well-formed tracker the stored links, followed from the stored
    /// head, visit the free stack from top to bottom and then end: they visit
    /// exactly the free slots, each once.
    pub proof fn lemma_links_spell_the_free_stack(&self)
        requires
            self.wf(),
        ensures
            self.linked_indices() == self@.free,
    {
        lemma_capacity_conserved(self@);
        self.lemma_follow_spells_the_rest(0, self.free_list_head_index, self.entries@.len());
        assert(self.chain@.skip(0) =~= self.chain@);
    }

    /// The tracker's invariant: the free stack names exactly the free slots,
    /// each once, and the stored links and counter agree with it.
    pub open spec fn wf(&self) -> bool {
        &&& self@.wf()
        &&& self.chained()
    }

    /// Builds a tracker with one free slot per pair, in order. The slots are
    /// pushed onto the free stack one after the other, so the last slot is the
    /// first to be occupied.
    pub fn new(pairs: Vec<(T::Common, T::Free)>) -> (r: Self)
        ensures
            r.wf(),
            r@ == Pool::<T>::fresh(pairs@),
    {
        let ghost all = pairs@;
        let mut entries: Vec<Entry<T>> = Vec::new();
        let mut free_list_head_index: Option<usize> = None;
        for pair in it: pairs.into_iter()
            invariant
                it.seq() == all,
                entries@.len() == it.index(),
                free_list_head_index == if it.index() == 0 {
                    None
                } else {
                    Some((it.index() - 1) as usize)
                },
                forall|i: int|
                    0 <= i < entries@.len() ==> (#[trigger] entries@[i]).common == all[i].0
                        && entries@[i].state == (StateInternal::<T>::Free {
                        free_list_next_index: if i == 0 {
                            None
                        } else {
                            Some((i - 1) as usize)
                        },
                        value: all[i].1,
                    }),
        {
            let i: usize = entries.len();
            let (v_common, v_free) = pair;
            entries.push(
                Entry {
                    common: v_common,
                    state: StateInternal::Free {
                        free_list_next_index: free_list_head_index,
                        value: v_free,
                    },
                },
            );
            free_list_head_index = Some(i);
        }
        let num_free: usize = entries.len();
        let ghost chain = Seq::new(all.len(), |k: int| all.len() - 1 - k);
        let r = SlotTracker { entries, free_list_head_index, num_free, chain: Ghost(chain) };
        proof {
            assert(r@.slots =~= Pool::<T>::fresh(all).slots);
            assert(r@.free =~= Pool::<T>::fresh(all).free);
            lemma_fresh_is_all_free::<T>(all);
            assert forall|k: int| 0 <= k < r.chain@.len() implies #[trigger] r.linked(k) by {}
        }
        r
    }

    /// Builds a tracker of `capacity` free slots, each with a clone of `common`
    /// and a clone of `free`.
    pub fn new_with_capacity<C: Clone, F: Clone>(common: C, free: F, capacity: usize) -> (r:
        Self) where T: SlotStateTypes<Common = C, Free = F>

        ensures
            r.wf(),
            r@.capacity() == capacity,
            r@.num_free() == capacity,
            exists|pairs: Seq<(T::Common, T::Free)>|
                #![trigger Pool::<T>::fresh(pairs)]
                {
                    &&& pairs.len() == capacity
                    &&& forall|i: int|
                        0 <= i < capacity ==> cloned(common, (#[trigger] pairs[i]).0) && cloned(
                            free,
                            pairs[i].1,
                        )
                    &&& r@ == Pool::<T>::fresh(pairs)
                },
    {
        let mut pairs: Vec<(T::Common, T::Free)> = Vec::new();
        let mut i: usize = 0;
        while i < capacity
            invariant
                i <= capacity,
                pairs@.len() == i,
                forall|k: int|
                    0 <= k < i ==> cloned(common, (#[trigger] pairs@[k]).0) && cloned(
                        free,
                        pairs@[k].1,
                    ),
            decreases capacity - i,
        {
            pairs.push((common.clone(), free.clone()));
            i = i + 1;
        }
        let ghost all = pairs@;
        let r = Self::new(pairs);
        assert(r@ == Pool::<T>::fresh(all));
        r
    }

    pub fn capacity(&self) -> (r: usize)
        ensures
            r == self@.capacity(),
    {
        self.entries.len()
    }

    /// Claims the slot on top of the free stack for `value` and returns its
    /// index with the payload it held while free. With no free slot, nothing
    /// changes and the result is `None`.
    pub fn occupy(&mut self, value: T::Occupied) -> (r: Option<(usize, T::Free)>)
        requires
            old(self).wf(),
        ensures
            final(self).wf(),
            final(self)@ == old(self)@.occupy(value),
            r is None <==> old(self)@.num_free() == 0,
            match r {
                Some((index, payload)) => old(self)@.occupy_result() == Some(
                    (index as int, payload),
                ),
                None => old(self)@.occupy_result() is None,
            },
    {
        let index: usize = match self.free_list_head_index {
            Some(index) => index,
            None => {
                return None;
            },
        };
        proof {
            assert(self.linked(0));
            assert(self@.in_bounds(self.chain@[0]));
            lemma_occupy_keeps_wf(self@, value);
        }
        let new_state = StateInternal::Occupied { value };
        let old_state = self.replace_state(index, new_state);
        match old_state {
            StateInternal::Free { free_list_next_index, value: payload } => {
                self.free_list_head_index = free_list_next_index;
                self.num_free = self.num_free - 1;
                self.chain = Ghost(self.chain@.drop_first());
                proof {
                    let before = *old(self);
                    assert(self@.slots =~= before@.occupy(value).slots);
                    assert forall|k: int| 0 <= k < self.chain@.len() implies #[trigger] self.linked(
                        k,
                    ) by {
                        assert(self.chain@[k] == before.chain@[k + 1]);
                        assert(before.linked(k + 1));
                    }
                }
                Some((index, payload))
            },
            StateInternal::Occupied { .. } => {
                proof {
                    assert(false);
                }
                None
            },
        }
    }

    /// Gives slot `index` back with `value` and returns the payload it held
    /// while occupied. The slot goes on top of the free stack.
    pub fn free(&mut self, index: usize, value: T::Free) -> (r: Result<
        T::Occupied,
        SlotTrackerError,
    >)
        requires
            old(self).wf(),
        ensures
            final(self).wf(),
            r == old(self)@.free_result(index as int),
            final(self)@ == old(self)@.free(index as int, value),
    {
        match self.ensure_state(index, SlotState::Occupied) {
            Ok(()) => {},
            Err(e) => {
                return Err(e);
            },
        }
        let state = self.replace_state_with_free(index, value);
        match state {
            StateInternal::Occupied { value } => Ok(value),
            StateInternal::Free { .. } => {
                proof {
                    assert(false);
                }
                Err(SlotTrackerError::StateMismatch)
            },
        }
    }

    fn ensure_state(&self, index: usize, state: SlotState) -> (r: Result<(), SlotTrackerError>)
        ensures
            r == if !self@.in_bounds(index as int) {
                Err::<(), _>(SlotTrackerError::OutOfBounds)
            } else if self@.state(index as int) != state {
                Err(SlotTrackerError::StateMismatch)
            } else {
                Ok(())
            },
    {
        match self.get_state(index) {
            Ok(actual) => if actual == state {
                Ok(())
            } else {
                Err(SlotTrackerError::StateMismatch)
            },
            Err(e) => Err(e),
        }
    }

    /// Puts `new_state` in place of the state of slot `index` and returns the
    /// old one. Only the entry changes.
    fn replace_state(&mut self, index: usize, new_state: StateInternal<T>) -> (r: StateInternal<T>)
        requires
            index < old(self).entries@.len(),
        ensures
            r == old(self).entries@[index as int].state,
            final(self).entries@ == old(self).entries@.update(
                index as int,
                Entry { common: old(self).entries@[index as int].common, state: new_state },
            ),
            final(self).free_list_head_index == old(self).free_list_head_index,
            final(self).num_free == old(self).num_free,
            final(self).chain == old(self).chain,
    {
        let mut state = new_state;
        core::mem::swap(&mut self.entries[index].state, &mut state);
        state
    }

    fn replace_state_with_free(&mut self, index: usize, value: T::Free) -> (r: StateInternal<T>)
        requires
            old(self).wf(),
            old(self)@.in_bounds(index as int),
            old(self)@.state(index as int) == SlotState::Occupied,
        ensures
            final(self).wf(),
            r == old(self).entries@[index as int].state,
            final(self)@ == old(self)@.free(index as int, value),
    {
        proof {
            lemma_occupied_slot_is_not_free(self@, index as int);
            assert(self.num_free < self.entries.len());
        }
        let new_state = StateInternal::Free {
            free_list_next_index: self.free_list_head_index,
            value,
        };
        self.free_list_head_index = Some(index);
        let r = self.replace_state(index, new_state);
        self.num_free = self.num_free + 1;
        self.chain = Ghost(seq![index as int] + self.chain@);
        proof {
            let before = *old(self);
            lemma_free_keeps_wf(before@, index as int, value);
            assert(self@.slots =~= before@.free(index as int, value).slots);
            assert(self.chain@.skip(1) =~= before.chain@);
            assert forall|k: int| 0 <= k < self.chain@.len() implies #[trigger] self.linked(
                k,
            ) by {
                if k > 0 {
                    assert(self.chain@[k] == before.chain@[k - 1]);
                    assert(before.linked(k - 1));
                    assert(self.chain@.skip(k + 1) =~= before.chain@.skip(k));
                }
            }
        }
        r
    }

    fn get_entry(&self, index: usize) -> (r: Result<&Entry<T>, SlotTrackerError>)
        ensures
            r == if index < self.entries@.len() {
                Ok::<_, SlotTrackerError>(&self.entries@[index as int])
            } else {
                Err(SlotTrackerError::OutOfBounds)
            },
    {
        if index < self.entries.len() {
            Ok(&self.entries[index])
        } else {
            Err(SlotTrackerError::OutOfBounds)
        }
    }

    /// The state of slot `index`.
    pub fn get_state(&self, index: usize) -> (r: Result<SlotState, SlotTrackerError>)
        ensures
            r == self@.get_state(index as int),
    {
        match self.get_entry(index) {
            Ok(entry) => Ok(entry.state.project()),
            Err(e) => Err(e),
        }
    }

    /// The payload that slot `index` keeps across transitions.
    pub fn get_common_value(&self, index: usize) -> (r: Result<&T::Common, SlotTrackerError>)
        ensures
            r == if self@.in_bounds(index as int) {
                Ok::<_, SlotTrackerError>(&self@.slots[index as int].common)
            } else {
                Err(SlotTrackerError::OutOfBounds)
            },
    {
        match self.get_entry(index) {
            Ok(entry) => Ok(&entry.common),
            Err(e) => Err(e),
        }
    }

    fn get_entry_mut(&mut self, index: usize) -> (r: Result<&mut Entry<T>, SlotTrackerError>)
        ensures
            match r {
                Ok(entry) => index < old(self).entries@.len() && *entry == old(
                    self,
                ).entries@[index as int] && final(self).entries@ == old(self).entries@.update(
                    index as int,
                    *final(entry),
                ) && final(self).free_list_head_index == old(self).free_list_head_index
                    && final(self).num_free == old(self).num_free && final(self).chain == old(
                    self,
                ).chain,
                Err(e) => index >= old(self).entries@.len() && e == SlotTrackerError::OutOfBounds
                    && *final(self) == *old(self),
            },
    {
        if index < self.entries.len() {
            Ok(&mut self.entries[index])
        } else {
            Err(SlotTrackerError::OutOfBounds)
        }
    }

    /// A mutable reference to the payload that slot `index` keeps across
    /// transitions. Whatever the caller writes through it, nothing else
    /// changes.
    pub fn get_common_value_mut(&mut self, index: usize) -> (r: Result<
        &mut T::Common,
        SlotTrackerError,
    >)
        requires
            old(self).wf(),
        ensures
            final(self).wf(),
            match r {
                Ok(common) => old(self)@.in_bounds(index as int) && *common == old(
                    self,
                )@.slots[index as int].common && final(self)@ == old(self)@.with_common(
                    index as int,
                    *final(common),
                ),
                Err(e) => !old(self)@.in_bounds(index as int) && e == SlotTrackerError::OutOfBounds
                    && final(self)@ == old(self)@,
            },
    {
        let ghost before = *self;
        let ghost after = *final(self);
        match self.get_entry_mut(index) {
            Ok(entry) => {
                let common = &mut entry.common;
                proof {
                    assert(after.entries@[index as int].state == before.entries@[index as int].state);
                    assert(after@.slots =~= before@.with_common(index as int, *final(common)).slots);
                    lemma_payload_writes_keep_wf(
                        before@,
                        index as int,
                        *final(common),
                        before@.slots[index as int].content,
                    );
                    assert forall|k: int| 0 <= k < after.chain@.len() implies #[trigger] after.linked(
                        k,
                    ) by {
                        assert(before.linked(k));
                    }
                }
                Ok(common)
            },
            Err(e) => Err(e),
        }
    }

    /// The payload that slot `index` holds for its current state.
    pub fn get_state_value(&self, index: usize) -> (r: Result<
        SlotStateValueRef<'_, T>,
        SlotTrackerError,
    >)
        ensures
            match r {
                Ok(value) => self@.in_bounds(index as int) && value.content()
                    == self@.slots[index as int].content,
                Err(e) => !self@.in_bounds(index as int) && e == SlotTrackerError::OutOfBounds,
            },
    {
        match self.get_entry(index) {
            Ok(entry) => Ok(
                match &entry.state {
                    StateInternal::Free { value, .. } => SlotStateValueRef::Free(value),
                    StateInternal::Occupied { value } => SlotStateValueRef::Occupied(value),
                },
            ),
            Err(e) => Err(e),
        }
    }

    /// Mutable access to the payload that slot `index` holds for its current
    /// state. The slot stays in its state; whatever the caller writes through
    /// the reference, nothing else changes.
    pub fn get_state_value_mut(&mut self, index: usize) -> (r: Result<
        SlotStateValueRefMut<'_, T>,
        SlotTrackerError,
    >)
        requires
            old(self).wf(),
        ensures
            final(self).wf(),
            match r {
                Ok(SlotStateValueRefMut::Free(value)) => old(self)@.in_bounds(index as int) && old(
                    self,
                )@.slots[index as int].content == SlotContent::<T>::Free(*value) && final(self)@
                    == old(self)@.with_content(index as int, SlotContent::Free(*final(value))),
                Ok(SlotStateValueRefMut::Occupied(value)) => old(self)@.in_bounds(index as int)
                    && old(self)@.slots[index as int].content == SlotContent::<T>::Occupied(*value)
                    && final(self)@ == old(self)@.with_content(
                    index as int,
                    SlotContent::Occupied(*final(value)),
                ),
                Err(e) => !old(self)@.in_bounds(index as int) && e == SlotTrackerError::OutOfBounds
                    && final(self)@ == old(self)@,
            },
    {
        let ghost before = *self;
        let ghost after = *final(self);
        match self.get_entry_mut(index) {
            Ok(entry) => {
                let r = match &mut entry.state {
                    StateInternal::Free { value, .. } => SlotStateValueRefMut::Free(value),
                    StateInternal::Occupied { value } => SlotStateValueRefMut::Occupied(value),
                };
                proof {
                    assert(after.entries@[index as int].common == before.entries@[index as int].common);
                    assert(after@.slots =~= before@.with_content(
                        index as int,
                        after@.slots[index as int].content,
                    ).slots);
                    lemma_payload_writes_keep_wf(
                        before@,
                        index as int,
                        before@.slots[index as int].common,
                        after@.slots[index as int].content,
                    );
                    assert forall|k: int| 0 <= k < after.chain@.len() implies #[trigger] after.linked(
                        k,
                    ) by {
                        assert(before.linked(k));
                    }
                }
                Ok(r)
            },
            Err(e) => Err(e),
        }
    }

    /// The number of occupied slots.
    pub fn num_occupied(&self) -> (r: usize)
        requires
            self.wf(),
        ensures
            r == self@.num_occupied(),
    {
        proof {
            lemma_capacity_conserved(self@);
        }
        self.capacity() - self.num_free()
    }

    /// The index that `occupy` would claim next.
    pub fn peek_next_free_index(&self) -> (r: Option<usize>)
        requires
            self.wf(),
        ensures
            match r {
                Some(index) => self@.next_free() == Some(index as int),
                None => self@.next_free() is None,
            },
    {
        self.free_list_head_index
    }

    pub fn num_free(&self) -> (r: usize)
        requires
            self.wf(),
        ensures
            r == self@.num_free(),
    {
        self.num_free
    }
}

/// A shared reference to the payload that a slot holds for its current state.
#[derive(Debug)]
pub enum SlotStateValueRef<'a, T: SlotStateTypes> {
    Free(&'a T::Free),
    Occupied(&'a T::Occupied),
}

impl<'a, T: SlotStateTypes> Clone for SlotStateValueRef<'a, T> {
    fn clone(&self) -> (r: Self)
        ensures
            r == *self,
    {
        *self
    }
}

impl<'a, T: SlotStateTypes> Copy for SlotStateValueRef<'a, T> {

}

impl<'a, T: SlotStateTypes> SlotStateValueRef<'a, T> {
    /// The payload referred to, with its state.
    pub open spec fn content(self) -> SlotContent<T> {
        match self {
            SlotStateValueRef::Free(value) => SlotContent::Free(*value),
            SlotStateValueRef::Occupied(value) => SlotContent::Occupied(*value),
        }
    }

    /// The payload of a free slot; `StateMismatch` for an occupied one.
    pub fn as_free(&self) -> (r: Result<&T::Free, SlotTrackerError>)
        ensures
            r == match *self {
                SlotStateValueRef::Free(value) => Ok::<_, SlotTrackerError>(value),
                SlotStateValueRef::Occupied(_) => Err(SlotTrackerError::StateMismatch),
            },
    {
        match self {
            SlotStateValueRef::Free(value) => Ok(value),
            SlotStateValueRef::Occupied(_) => Err(SlotTrackerError::StateMismatch),
        }
    }

    /// The payload of an occupied slot; `StateMismatch` for a free one.
    pub fn as_occupied(&self) -> (r: Result<&T::Occupied, SlotTrackerError>)
        ensures
            r == match *self {
                SlotStateValueRef::Occupied(value) => Ok::<_, SlotTrackerError>(value),
                SlotStateValueRef::Free(_) => Err(SlotTrackerError::StateMismatch),
            },
    {
        match self {
            SlotStateValueRef::Occupied(value) => Ok(value),
            SlotStateValueRef::Free(_) => Err(SlotTrackerError::StateMismatch),
        }
    }
}

/// A mutable reference to the payload that a slot holds for its current state.
#[derive(Debug)]
pub enum SlotStateValueRefMut<'a, T: SlotStateTypes> {
    Free(&'a mut T::Free),
    Occupied(&'a mut T::Occupied),
}

impl<'a, T: SlotStateTypes> SlotStateValueRefMut<'a, T> {
    /// The payload of a free slot, for writing; `StateMismatch` for an
    /// occupied one.
    pub fn as_free(&mut self) -> (r: Result<&mut T::Free, SlotTrackerError>)
        ensures
            match *old(self) {
                SlotStateValueRefMut::Free(held) => {
                    &&& r matches Ok(value)
                    &&& *value == *held
                    &&& *final(self) matches SlotStateValueRefMut::Free(kept)
                    &&& *kept == *final(value)
                    &&& *final(kept) == *final(held)
                },
                SlotStateValueRefMut::Occupied(_) => {
                    &&& r matches Err(e)
                    &&& e == SlotTrackerError::StateMismatch
                    &&& *final(self) == *old(self)
                },
            },
    {
        match self {
            SlotStateValueRefMut::Free(value) => Ok(value),
            SlotStateValueRefMut::Occupied(_) => Err(SlotTrackerError::StateMismatch),
        }
    }

    /// The payload of an occupied slot, for writing; `StateMismatch` for a
    /// free one.
    pub fn as_occupied(&mut self) -> (r: Result<&mut T::Occupied, SlotTrackerError>)
        ensures
            match *old(self) {
                SlotStateValueRefMut::Occupied(held) => {
                    &&& r matches Ok(value)
                    &&& *value == *held
                    &&& *final(self) matches SlotStateValueRefMut::Occupied(kept)
                    &&& *kept == *final(value)
                    &&& *final(kept) == *final(held)
                },
                SlotStateValueRefMut::Free(_) => {
                    &&& r matches Err(e)
                    &&& e == SlotTrackerError::StateMismatch
                    &&& *final(self) == *old(self)
                },
            },
    {
        match self {
            SlotStateValueRefMut::Occupied(value) => Ok(value),
            SlotStateValueRefMut::Free(_) => Err(SlotTrackerError::StateMismatch),
        }
    }
}

} // verus!
