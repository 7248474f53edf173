//! A pool of a fixed number of slots, each empty or holding one item.
//!
//! Slots are never moved or reordered: an item stays in the slot it was put
//! in until that slot is emptied.

use vstd::prelude::*;

verus! {

/// Whether slot `i` is the first empty slot of `slots`.
pub open spec fn first_free<T>(slots: Seq<Option<T>>, i: int) -> bool {
    &&& 0 <= i < slots.len()
    &&& slots[i] is None
    &&& forall|j: int| 0 <= j < i ==> (#[trigger] slots[j]) is Some
}

/// Whether no slot of `slots` is empty.
pub open spec fn full<T>(slots: Seq<Option<T>>) -> bool {
    forall|j: int| 0 <= j < slots.len() ==> (#[trigger] slots[j]) is Some
}

/// A fixed number of slots.
pub struct SlotPool<T> {
    slots: Vec<Option<T>>,
}

impl<T> View for SlotPool<T> {
    type V = Seq<Option<T>>;

    closed spec fn view(&self) -> Seq<Option<T>> {
        self.slots@
    }
}

impl<T> SlotPool<T> {
    /// A pool of `capacity` empty slots.
    pub fn new(capacity: usize) -> (r: SlotPool<T>)
        ensures
            r@.len() == capacity,
            forall|i: int| 0 <= i < capacity ==> (#[trigger] r@[i]) is None,
    {
        let mut slots: Vec<Option<T>> = Vec::new();
        let mut i: usize = 0;
        while i < capacity
            invariant
                i <= capacity,
                slots@.len() == i,
                forall|k: int| 0 <= k < i ==> (#[trigger] slots@[k]) is None,
            decreases capacity - i,
        {
            slots.push(None);
            i += 1;
        }
        SlotPool { slots }
    }

    /// Number of slots, empty or not.
    pub fn capacity(&self) -> (r: usize)
        ensures
            r == self@.len(),
    {
        self.slots.len()
    }

    /// The item in slot `i`, if that slot exists and is occupied.
    pub fn get(&self, i: usize) -> (r: Option<&T>)
        ensures
            match r {
                Some(item) => i < self@.len() && self@[i as int] == Some(*item),
                None => i >= self@.len() || self@[i as int] is None,
            },
    {
        if i < self.slots.len() {
            self.slots[i].as_ref()
        } else {
            None
        }
    }

    /// Puts `item` into the first empty slot and returns that slot's index.
    /// Where no slot is empty the item is dropped and the pool stays as it
    /// was.
    pub fn insert(&mut self, item: T) -> (r: Option<usize>)
        ensures
            match r {
                Some(i) => first_free(old(self)@, i as int) && final(self)@ == old(self)@.update(
                    i as int,
                    Some(item),
                ),
                None => full(old(self)@) && final(self)@ == old(self)@,
            },
    {
        let mut i: usize = 0;
        while i < self.slots.len()
            invariant
                i <= self.slots@.len(),
                self.slots@ == old(self).slots@,
                forall|j: int| 0 <= j < i ==> (#[trigger] self.slots@[j]) is Some,
            decreases self.slots@.len() - i,
        {
            if self.slots[i].is_none() {
                self.slots[i] = Some(item);
                return Some(i);
            }
            i += 1;
        }
        None
    }

    /// Replaces the item of every occupied slot by what `step` makes of it:
    /// the slot is emptied where `step` returns `None`. Empty slots stay
    /// empty, and no item changes its slot.
    pub fn advance<F: Fn(&T) -> Option<T>>(&mut self, step: F)
        requires
            forall|i: int|
                0 <= i < old(self)@.len() && (#[trigger] old(self)@[i]) is Some ==> call_requires(
                    step,
                    (&old(self)@[i]->0,),
                ),
        ensures
            final(self)@.len() == old(self)@.len(),
            forall|i: int|
                0 <= i < old(self)@.len() ==> match #[trigger] old(self)@[i] {
                    Some(item) => call_ensures(step, (&item,), final(self)@[i]),
                    None => final(self)@[i] is None,
                },
    {
        let mut i: usize = 0;
        while i < self.slots.len()
            invariant
                i <= self.slots@.len(),
                self.slots@.len() == old(self).slots@.len(),
                forall|j: int|
                    0 <= j < old(self)@.len() && (#[trigger] old(self)@[j]) is Some
                        ==> call_requires(step, (&old(self)@[j]->0,)),
                forall|j: int| i <= j < self.slots@.len() ==> self.slots@[j] == old(self).slots@[j],
                forall|j: int|
                    0 <= j < i ==> match #[trigger] old(self)@[j] {
                        Some(item) => call_ensures(step, (&item,), self.slots@[j]),
                        None => self.slots@[j] is None,
                    },
            decreases self.slots@.len() - i,
        {
            let next: Option<T> = match &self.slots[i] {
                Some(item) => step(item),
                None => None,
            };
            self.slots[i] = next;
            i += 1;
        }
    }

    /// Whether `hit` holds of the item in some occupied slot. The slots are
    /// asked in order, up to the first for which it holds.
    pub fn any<F: Fn(&T) -> bool>(&self, hit: F) -> (r: bool)
        requires
            forall|i: int|
                0 <= i < self@.len() && (#[trigger] self@[i]) is Some ==> call_requires(
                    hit,
                    (&self@[i]->0,),
                ),
        ensures
            r ==> exists|i: int|
                0 <= i < self@.len() && (#[trigger] self@[i]) is Some && call_ensures(
                    hit,
                    (&self@[i]->0,),
                    true,
                ),
            !r ==> forall|i: int|
                0 <= i < self@.len() && (#[trigger] self@[i]) is Some ==> call_ensures(
                    hit,
                    (&self@[i]->0,),
                    false,
                ),
    {
        let mut i: usize = 0;
        while i < self.slots.len()
            invariant
                i <= self.slots@.len(),
                forall|j: int|
                    0 <= j < self@.len() && (#[trigger] self@[j]) is Some ==> call_requires(
                        hit,
                        (&self@[j]->0,),
                    ),
                forall|j: int|
                    0 <= j < i && (#[trigger] self@[j]) is Some ==> call_ensures(
                        hit,
                        (&self@[j]->0,),
                        false,
                    ),
            decreases self.slots@.len() - i,
        {
            let found: bool = match &self.slots[i] {
                Some(item) => hit(item),
                None => false,
            };
            if found {
                return true;
            }
            i += 1;
        }
        false
    }
}

} // verus!
