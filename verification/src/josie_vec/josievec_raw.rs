//! The buffer: one block of element slots, sized for a given capacity.
//!
//! A slot either holds an element or is vacant. The buffer knows nothing of
//! which slots are live; it only allocates, resizes and frees the block and
//! moves elements in and out of single slots.

use super::resized_from;
use vstd::prelude::*;

verus! {

/// A block of `cap()` slots. A buffer of capacity zero holds no allocation.
pub(crate) struct RawJosieVec<T> {
    pub(crate) slots: Vec<Option<T>>,
}

/// `Vec::into_boxed_slice` of std: the vector's elements, in their order, in a
/// heap block of exactly their number. The contract claims that the block
/// holds what the vector held.
#[verifier::external_body]
pub(crate) fn into_block<T>(elements: Vec<T>) -> (block: Box<[T]>)
    ensures
        block@ == elements@,
{
    elements.into_boxed_slice()
}

impl<T> RawJosieVec<T> {
    /// What each slot holds.
    pub closed spec fn slots(&self) -> Seq<Option<T>> {
        self.slots@
    }

    /// The number of slots.
    pub open spec fn cap(&self) -> nat {
        self.slots().len()
    }

    /// A buffer without an allocation.
    pub(crate) fn dangling() -> (buf: Self)
        ensures
            buf.cap() == 0,
    {
        RawJosieVec { slots: Vec::new() }
    }

    pub(crate) fn capacity(&self) -> (cap: usize)
        ensures
            cap == self.cap(),
    {
        self.slots.len()
    }

    /// A fresh block of `cap` vacant slots.
    fn allocate(cap: usize) -> (slots: Vec<Option<T>>)
        ensures
            slots@.len() == cap,
            forall|i: int| 0 <= i < cap ==> (#[trigger] slots@[i]) is None,
    {
        let mut slots: Vec<Option<T>> = Vec::with_capacity(cap);
        while slots.len() < cap
            invariant
                slots@.len() <= cap,
                forall|i: int| 0 <= i < slots@.len() ==> (#[trigger] slots@[i]) is None,
            decreases cap - slots@.len(),
        {
            slots.push(None);
        }
        slots
    }

    /// A block of `cap` slots that takes over the contents of this one as far
    /// as they fit; what does not fit is dropped with the old block.
    fn reallocate(&mut self, cap: usize) -> (slots: Vec<Option<T>>)
        ensures
            slots@.len() == cap,
            resized_from(old(self).slots(), slots@),
    {
        let keep = if self.slots.len() < cap {
            self.slots.len()
        } else {
            cap
        };
        let mut slots: Vec<Option<T>> = Vec::with_capacity(cap);
        let mut i: usize = 0;
        while i < keep
            invariant
                i <= keep,
                keep <= cap,
                keep <= self.slots@.len(),
                self.slots@.len() == old(self).slots@.len(),
                slots@.len() == i,
                forall|j: int| 0 <= j < i ==> #[trigger] slots@[j] == old(self).slots@[j],
                forall|j: int|
                    i <= j < self.slots@.len() ==> #[trigger] self.slots@[j]
                        == old(self).slots@[j],
            decreases keep - i,
        {
            let moved = self.slots[i].take();
            slots.push(moved);
            i += 1;
        }
        while slots.len() < cap
            invariant
                keep <= slots@.len() <= cap,
                forall|j: int| 0 <= j < keep ==> #[trigger] slots@[j] == old(self).slots@[j],
                forall|j: int| keep <= j < slots@.len() ==> (#[trigger] slots@[j]) is None,
            decreases cap - slots@.len(),
        {
            slots.push(None);
        }
        slots
    }

    /// Brings the buffer to exactly `cap` slots. Which of four things happens
    /// depends on the current and the requested capacity alone: a buffer
    /// without a block allocates one; a buffer with a block moves to one of
    /// the new size, keeping its contents as far as they fit; a request for
    /// zero frees the block; and zero to zero does nothing.
    pub(crate) fn ensure(&mut self, cap: usize)
        ensures
            final(self).cap() == cap,
            resized_from(old(self).slots(), final(self).slots()),
    {
        let current = self.slots.len();
        if cap != 0 && current == 0 {
            self.slots = Self::allocate(cap);
        } else if cap != 0 {
            let moved = self.reallocate(cap);
            self.slots = moved;
        } else if current != 0 {
            self.slots = Vec::new();
        }
    }

    /// Puts `element` into slot `index`, dropping what the slot held.
    pub(crate) fn write(&mut self, index: usize, element: T)
        requires
            index < old(self).cap(),
        ensures
            final(self).slots() == old(self).slots().update(index as int, Some(element)),
    {
        self.slots[index] = Some(element);
    }

    /// Moves out what slot `index` holds and leaves the slot vacant.
    pub(crate) fn read(&mut self, index: usize) -> (element: Option<T>)
        requires
            index < old(self).cap(),
        ensures
            element == old(self).slots()[index as int],
            final(self).slots() == old(self).slots().update(index as int, None),
    {
        self.slots[index].take()
    }

    /// Borrows the first `len` slots.
    pub(crate) fn prefix(&self, len: usize) -> (slots: &[Option<T>])
        requires
            len <= self.cap(),
        ensures
            slots@ == self.slots().take(len as int),
    {
        vstd::slice::slice_subrange(self.slots.as_slice(), 0, len)
    }

    /// Borrows the first `len` slots for writing. The slots behind them stay
    /// as they are.
    pub(crate) fn prefix_mut(&mut self, len: usize) -> (slots: &mut [Option<T>])
        requires
            len <= old(self).cap(),
        ensures
            slots@ == old(self).slots().take(len as int),
            final(self).slots() == final(slots)@ + old(self).slots().skip(len as int),
    {
        let (front, back) = self.slots.as_mut_slice().split_at_mut(len);
        front
    }

    /// Takes the block out of the buffer.
    pub(crate) fn into_slots(self) -> (slots: Vec<Option<T>>)
        ensures
            slots@ == self.slots(),
    {
        self.slots
    }

    /// Borrows the element in slot `index`.
    pub(crate) fn peek(&self, index: usize) -> (element: &T)
        requires
            index < self.cap(),
            self.slots()[index as int] is Some,
        ensures
            *element == self.slots()[index as int]->0,
    {
        self.slots[index].as_ref().unwrap()
    }
}

} // verus!
