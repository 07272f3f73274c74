//! The container: a buffer of slots and the count of live elements in it.
//!
//! The live elements are those in slots `[0, len)`. Slots from `len` up to the
//! capacity are spare: they are never read, and what they hold, if anything,
//! is not part of the container's contents.

pub mod josievec_capacity;
pub mod josievec_drain;
pub mod josievec_extend;
pub mod josievec_iter;
pub(crate) mod josievec_raw;

use self::josievec_capacity::{capacity_after_push, doubled_until, grown_capacity, reserve_fits};
use self::josievec_capacity::{lemma_doubled_until_bounds, lemma_reserve_fits};
use self::josievec_raw::{into_block, RawJosieVec};
use vstd::prelude::*;

verus! {

/// What resizing does to the slots of a buffer: `resized` agrees with `slots`
/// as far as both reach, and every slot of `resized` past the end of `slots`
/// is vacant.
pub open spec fn resized_from<T>(slots: Seq<Option<T>>, resized: Seq<Option<T>>) -> bool {
    &&& forall|i: int|
        0 <= i < slots.len() && i < resized.len() ==> #[trigger] resized[i] == slots[i]
    &&& forall|i: int| slots.len() <= i < resized.len() ==> (#[trigger] resized[i]) is None
}

/// A growable sequence of `T` in one buffer.
pub struct JosieVec<T> {
    pub(crate) buf: RawJosieVec<T>,
    pub(crate) len: usize,
}

impl<T> View for JosieVec<T> {
    type V = Seq<T>;

    /// The live elements, in index order.
    open spec fn view(&self) -> Seq<T> {
        Seq::new(self.spec_len() as nat, |i: int| self.slots()[i]->0)
    }
}

impl<T> JosieVec<T> {
    /// What each slot of the buffer holds: `Some` for an initialized slot.
    pub closed spec fn slots(&self) -> Seq<Option<T>> {
        self.buf.slots()
    }

    /// The number of live elements.
    pub closed spec fn spec_len(&self) -> usize {
        self.len
    }

    /// The number of slots.
    pub open spec fn spec_capacity(&self) -> usize {
        self.slots().len() as usize
    }

    /// The container's invariant: the length is within the capacity and
    /// every slot under the length is initialized.
    pub open spec fn wf(&self) -> bool {
        &&& self@.len() == self.spec_len()
        &&& self.spec_len() <= self.slots().len()
        &&& self.slots().len() <= usize::MAX
        &&& forall|i: int| 0 <= i < self.spec_len() ==> (#[trigger] self.slots()[i]) is Some
    }

    /// Whether slots `[from, to)` are all vacant.
    pub open spec fn vacant(&self, from: int, to: int) -> bool {
        forall|i: int|
            from <= i < to && 0 <= i < self.slots().len() ==> (#[trigger] self.slots()[i]) is None
    }

    /// An empty container without a buffer.
    pub fn new() -> (josievec: Self)
        ensures
            josievec.wf(),
            josievec@ == Seq::<T>::empty(),
            josievec.spec_capacity() == 0,
    {
        let josievec = JosieVec { buf: RawJosieVec::dangling(), len: 0 };
        assert(josievec@ =~= Seq::<T>::empty());
        josievec
    }

    /// An empty container with a buffer of exactly `cap` slots.
    pub fn with_capacity(cap: usize) -> (josievec: Self)
        ensures
            josievec.wf(),
            josievec@ == Seq::<T>::empty(),
            josievec.spec_capacity() == cap,
    {
        let mut temp = Self::new();
        temp.realloc_internal(cap);
        temp
    }

    /// Appends `element`. A full buffer grows first, by amortized doubling.
    pub fn push(&mut self, element: T)
        requires
            old(self).wf(),
            capacity_after_push(old(self).spec_len() as nat, old(self).spec_capacity() as nat)
                <= usize::MAX,
        ensures
            final(self).wf(),
            final(self)@ == old(self)@.push(element),
            final(self).spec_capacity() == capacity_after_push(
                old(self).spec_len() as nat,
                old(self).spec_capacity() as nat,
            ),
    {
        if self.buf.capacity() == self.len {
            self.grow_amortized();
        }
        assert(self.spec_len() == old(self).spec_len()) by {
            assert(self@.len() == old(self)@.len());
        }
        self.push_internal(element);
    }

    /// Takes the last element out, if there is one.
    pub fn pop(&mut self) -> (popped: Option<T>)
        requires
            old(self).wf(),
        ensures
            final(self).wf(),
            final(self).spec_capacity() == old(self).spec_capacity(),
            old(self)@.len() == 0 ==> popped is None,
            old(self)@.len() == 0 ==> final(self)@ == old(self)@,
            old(self)@.len() == 0 ==> final(self).slots() == old(self).slots(),
            old(self)@.len() > 0 ==> popped == Some(old(self)@.last()),
            old(self)@.len() > 0 ==> final(self)@ == old(self)@.drop_last(),
            old(self)@.len() > 0 ==> final(self).slots() == old(self).slots().update(
                old(self).spec_len() - 1,
                None,
            ),
    {
        if self.len == 0 {
            return None;
        }
        self.len -= 1;
        let popped = self.buf.read(self.len);
        assert(final(self)@ =~= old(self)@.drop_last());
        popped
    }

    /// Takes the element at `index` out and closes the gap: every element
    /// that followed it moves down by one slot.
    pub fn remove(&mut self, index: usize) -> (removed: T)
        requires
            old(self).wf(),
            index < old(self).spec_len(),
        ensures
            final(self).wf(),
            removed == old(self)@[index as int],
            final(self)@ == old(self)@.remove(index as int),
            final(self)@.len() == old(self)@.len() - 1,
            forall|i: int| 0 <= i < index ==> #[trigger] final(self)@[i] == old(self)@[i],
            forall|i: int|
                index <= i < final(self)@.len() ==> #[trigger] final(self)@[i] == old(self)@[i + 1],
            final(self).spec_capacity() == old(self).spec_capacity(),
            final(self).slots()[old(self).spec_len() - 1] is None,
    {
        self.len -= 1;
        let out = self.buf.read(index);
        let mut at: usize = index;
        while at < self.len
            invariant
                index <= at <= self.len,
                self.len == old(self).len - 1,
                old(self).len <= self.buf.cap(),
                self.buf.cap() == old(self).buf.cap(),
                self.buf.slots()[at as int] is None,
                forall|i: int|
                    0 <= i < index ==> #[trigger] self.buf.slots()[i] == old(self).buf.slots()[i],
                forall|i: int|
                    index <= i < at ==> #[trigger] self.buf.slots()[i]
                        == old(self).buf.slots()[i + 1],
                forall|i: int|
                    at < i < self.buf.cap() ==> #[trigger] self.buf.slots()[i]
                        == old(self).buf.slots()[i],
            decreases self.len - at,
        {
            let moved = self.buf.read(at + 1);
            match moved {
                Some(element) => {
                    self.buf.write(at, element);
                },
                None => {},
            }
            at += 1;
        }
        assert(final(self)@ =~= old(self)@.remove(index as int));
        out.unwrap()
    }

    /// Drops every element and leaves the capacity as it is.
    pub fn clear(&mut self)
        requires
            old(self).wf(),
        ensures
            final(self).wf(),
            final(self)@ == Seq::<T>::empty(),
            final(self).spec_capacity() == old(self).spec_capacity(),
            final(self).vacant(0, old(self).spec_len() as int),
    {
        self.truncate(0);
        assert(final(self)@ =~= Seq::<T>::empty());
    }

    /// Makes room for `extra` more elements: the capacity moves along the
    /// doubling curve, one doubling at a time, to the first capacity that
    /// holds `len + extra`.
    pub fn reserve(&mut self, extra: usize)
        requires
            old(self).wf(),
            reserve_fits(
                old(self).spec_capacity() as nat,
                (old(self).spec_len() + extra) as nat,
            ),
        ensures
            final(self).wf(),
            final(self)@ == old(self)@,
            final(self).spec_capacity() == doubled_until(
                old(self).spec_capacity() as nat,
                (old(self).spec_len() + extra) as nat,
            ),
            resized_from(old(self).slots(), final(self).slots()),
    {
        let ghost needed = (self.len + extra) as nat;
        let ghost target = doubled_until(self.buf.cap(), needed);
        proof {
            lemma_reserve_fits(self.buf.cap(), needed);
        }
        let mut new_capacity: usize = self.buf.capacity();
        while extra > new_capacity || self.len > new_capacity - extra
            invariant
                needed == self.len + extra,
                target <= usize::MAX,
                new_capacity <= target,
                doubled_until(new_capacity as nat, needed) == target,
            decreases target - new_capacity,
        {
            proof {
                lemma_doubled_until_bounds(grown_capacity(new_capacity as nat), needed);
            }
            if new_capacity == 0 {
                new_capacity = 1;
            } else {
                new_capacity = new_capacity * 2;
            }
        }
        self.realloc_internal(new_capacity);
    }

    /// Grows the buffer to exactly `cap` slots if it has fewer.
    pub fn reserve_exact(&mut self, cap: usize)
        requires
            old(self).wf(),
        ensures
            final(self).wf(),
            final(self)@ == old(self)@,
            final(self).spec_capacity() == if cap > old(self).spec_capacity() {
                cap
            } else {
                old(self).spec_capacity()
            },
            resized_from(old(self).slots(), final(self).slots()),
    {
        if cap > self.buf.capacity() {
            self.realloc_internal(cap);
        }
    }

    /// Cuts the contents down to `cap` elements if there are more, then
    /// resizes the buffer to exactly `cap` slots.
    pub fn shrink_to(&mut self, cap: usize)
        requires
            old(self).wf(),
        ensures
            final(self).wf(),
            final(self)@ == if cap < old(self).spec_len() {
                old(self)@.take(cap as int)
            } else {
                old(self)@
            },
            final(self).spec_capacity() == cap,
    {
        self.truncate(cap);
        assert(self.spec_len() <= cap) by {
            assert(self@.len() == self.spec_len());
        }
        self.realloc_internal(cap);
    }

    /// Resizes the buffer to hold the live elements and nothing more.
    pub fn shrink_to_fit(&mut self)
        requires
            old(self).wf(),
        ensures
            final(self).wf(),
            final(self)@ == old(self)@,
            final(self).spec_capacity() == old(self).spec_len(),
    {
        self.shrink_to(self.len);
    }

    /// Overwrites the length and touches no slot. The caller answers for the
    /// slots under the new length: each of them has to be initialized.
    pub fn set_len(&mut self, len: usize)
        requires
            len <= old(self).slots().len(),
            forall|i: int| 0 <= i < len ==> (#[trigger] old(self).slots()[i]) is Some,
        ensures
            final(self).spec_len() == len,
            final(self).slots() == old(self).slots(),
            old(self).wf() ==> final(self).wf(),
            final(self)@.len() == len,
            forall|i: int| 0 <= i < len ==> #[trigger] final(self)@[i] == old(self).slots()[i]->0,
            len <= old(self).spec_len() ==> final(self)@ == old(self)@.take(len as int),
    {
        self.len = len;
        assert(len <= old(self).spec_len() ==> final(self)@ =~= old(self)@.take(len as int));
    }

    /// Drops every element from index `len` on, each once, and leaves their
    /// slots vacant. Does nothing if there are no more than `len` elements.
    pub fn truncate(&mut self, len: usize)
        requires
            old(self).wf(),
        ensures
            final(self).wf(),
            final(self).spec_capacity() == old(self).spec_capacity(),
            len < old(self).spec_len() ==> final(self)@ == old(self)@.take(len as int)
                && final(self).vacant(len as int, old(self).spec_len() as int),
            len >= old(self).spec_len() ==> final(self)@ == old(self)@ && final(self).slots()
                == old(self).slots(),
            forall|i: int|
                0 <= i < final(self).slots().len() && !(len <= i < old(self).spec_len())
                    ==> #[trigger] final(self).slots()[i] == old(self).slots()[i],
    {
        if len < self.len {
            let end = self.len;
            self.len = len;
            let mut at: usize = len;
            while at < end
                invariant
                    len <= at <= end,
                    end <= self.buf.cap(),
                    self.len == len,
                    self.buf.cap() == old(self).buf.cap(),
                    forall|i: int| len <= i < at ==> (#[trigger] self.buf.slots()[i]) is None,
                    forall|i: int|
                        0 <= i < self.buf.cap() && !(len <= i < at)
                            ==> #[trigger] self.buf.slots()[i] == old(self).buf.slots()[i],
                decreases end - at,
            {
                let dropped = self.buf.read(at);
                at += 1;
            }
            assert(final(self)@ =~= old(self)@.take(len as int));
        }
    }

    /// The live elements in a heap block of exactly their number. The buffer
    /// and whatever capacity it had are given up.
    pub fn into_boxed_slice(self) -> (block: Box<[T]>)
        requires
            self.wf(),
        ensures
            block@ == self@,
    {
        let mut josievec = self;
        let mut elements: Vec<T> = Vec::with_capacity(josievec.len);
        let mut at: usize = 0;
        while at < josievec.len
            invariant
                at <= josievec.len,
                josievec.len == self.len,
                josievec.len <= josievec.buf.cap(),
                josievec.buf.cap() == self.buf.cap(),
                elements@.len() == at,
                forall|i: int| 0 <= i < at ==> #[trigger] elements@[i] == self@[i],
                forall|i: int|
                    at <= i < josievec.len ==> #[trigger] josievec.buf.slots()[i]
                        == self.buf.slots()[i],
                self.wf(),
            decreases josievec.len - at,
        {
            let element = josievec.buf.read(at);
            elements.push(element.unwrap());
            at += 1;
        }
        assert(elements@ =~= self@);
        into_block(elements)
    }

    /// A container of the same capacity whose elements are clones of this
    /// one's, in the same order. The two share nothing.
    pub fn clone(&self) -> (copy: Self) where T: Clone
        requires
            self.wf(),
        ensures
            copy.wf(),
            copy.spec_capacity() == self.spec_capacity(),
            copy@.len() == self@.len(),
            forall|i: int| 0 <= i < self@.len() ==> cloned::<T>(self@[i], #[trigger] copy@[i]),
    {
        let mut temp: JosieVec<T> = JosieVec::with_capacity(self.buf.capacity());
        assert(temp@.len() == temp.spec_len());
        let mut at: usize = 0;
        while at < self.len
            invariant
                self.wf(),
                temp.wf(),
                at <= self.len,
                temp.spec_len() == at,
                temp@.len() == at,
                temp.spec_capacity() == self.spec_capacity(),
                forall|i: int| 0 <= i < at ==> cloned::<T>(self@[i], #[trigger] temp@[i]),
            decreases self.len - at,
        {
            let element = self.buf.peek(at).clone();
            let ghost before = temp@;
            temp.push_internal(element);
            assert(temp@.len() == temp.spec_len());
            assert forall|i: int| 0 <= i < at + 1 implies cloned::<T>(
                self@[i],
                #[trigger] temp@[i],
            ) by {
                if i < at {
                    assert(temp@[i] == before[i]);
                }
            }
            at += 1;
        }
        temp
    }

    /// The number of live elements.
    #[verifier::when_used_as_spec(spec_len)]
    pub fn len(&self) -> (len: usize)
        ensures
            len == self.spec_len(),
    {
        self.len
    }

    /// The number of slots in the buffer.
    #[verifier::when_used_as_spec(spec_capacity)]
    pub fn capacity(&self) -> (cap: usize)
        ensures
            cap == self.spec_capacity(),
    {
        self.buf.capacity()
    }

    /// Puts `element` into slot `index`, dropping what the slot held.
    pub(crate) fn write_slot(&mut self, index: usize, element: T)
        requires
            index < old(self).slots().len(),
        ensures
            final(self).spec_len() == old(self).spec_len(),
            final(self).slots() == old(self).slots().update(index as int, Some(element)),
    {
        self.buf.write(index, element);
    }

    /// Moves out what slot `index` holds and leaves the slot vacant.
    pub(crate) fn take_slot(&mut self, index: usize) -> (element: Option<T>)
        requires
            index < old(self).slots().len(),
        ensures
            element == old(self).slots()[index as int],
            final(self).spec_len() == old(self).spec_len(),
            final(self).slots() == old(self).slots().update(index as int, None),
    {
        self.buf.read(index)
    }

    /// Writes `element` into the first spare slot, which has to exist.
    pub(crate) fn push_internal(&mut self, element: T)
        requires
            old(self).wf(),
            old(self).spec_len() < old(self).slots().len(),
        ensures
            final(self).wf(),
            final(self)@ == old(self)@.push(element),
            final(self).slots() == old(self).slots().update(
                old(self).spec_len() as int,
                Some(element),
            ),
    {
        self.buf.write(self.len, element);
        self.len += 1;
        assert(final(self)@ =~= old(self)@.push(element));
    }

    /// One step of amortized growth: to one slot from none, to twice the
    /// capacity otherwise.
    pub(crate) fn grow_amortized(&mut self)
        requires
            old(self).wf(),
            grown_capacity(old(self).spec_capacity() as nat) <= usize::MAX,
        ensures
            final(self).wf(),
            final(self)@ == old(self)@,
            final(self).spec_capacity() == grown_capacity(old(self).spec_capacity() as nat),
            resized_from(old(self).slots(), final(self).slots()),
    {
        if self.buf.capacity() == 0 {
            self.realloc_internal(1);
            return ;
        }
        let doubled = self.buf.capacity() * 2;
        self.realloc_internal(doubled);
    }

    /// Resizes the buffer to exactly `cap` slots, which have to hold the live
    /// elements.
    pub(crate) fn realloc_internal(&mut self, cap: usize)
        requires
            old(self).wf(),
            old(self).spec_len() <= cap,
        ensures
            final(self).wf(),
            final(self)@ == old(self)@,
            final(self).spec_capacity() == cap,
            resized_from(old(self).slots(), final(self).slots()),
    {
        self.buf.ensure(cap);
        assert(final(self)@ =~= old(self)@);
    }
}

impl<T> Default for JosieVec<T> {
    /// An empty container without a buffer.
    fn default() -> (josievec: Self)
        ensures
            josievec.wf(),
            josievec@ == Seq::<T>::empty(),
            josievec.spec_capacity() == 0,
    {
        JosieVec::new()
    }
}

} // verus!
