//! Iteration: by shared reference, by exclusive reference, and by value.

use super::josievec_extend::ElementSource;
use super::JosieVec;
use vstd::prelude::*;

verus! {

/// Whether every slot of `slots` is initialized.
pub open spec fn all_initialized<T>(slots: Seq<Option<T>>) -> bool {
    forall|i: int| 0 <= i < slots.len() ==> (#[trigger] slots[i]) is Some
}

/// The elements in `slots`, which are all initialized.
pub open spec fn elements_of<T>(slots: Seq<Option<T>>) -> Seq<T> {
    Seq::new(slots.len(), |i: int| slots[i]->0)
}

/// Walks the live elements by shared reference, front to back.
pub struct JosieVecIterRef<'a, T> {
    pub(crate) slice: &'a [Option<T>],
}

impl<'a, T> JosieVecIterRef<'a, T> {
    #[verifier::type_invariant]
    spec fn initialized(self) -> bool {
        all_initialized(self.slice@)
    }

    /// The elements still to come.
    pub closed spec fn remaining(self) -> Seq<T> {
        elements_of(self.slice@)
    }

    /// Splits the first element off the front of what remains.
    pub fn next(&mut self) -> (element: Option<&'a T>)
        ensures
            old(self).remaining().len() == 0 ==> element is None,
            old(self).remaining().len() == 0 ==> final(self).remaining() == old(self).remaining(),
            old(self).remaining().len() > 0 ==> element is Some,
            old(self).remaining().len() > 0 ==> *element->0 == old(self).remaining()[0],
            old(self).remaining().len() > 0 ==> final(self).remaining()
                == old(self).remaining().drop_first(),
    {
        proof {
            use_type_invariant(&*self);
        }
        let slice = self.slice;
        if slice.len() == 0 {
            None
        } else {
            let first = slice[0].as_ref();
            self.slice = vstd::slice::slice_subrange(slice, 1, slice.len());
            assert(final(self).remaining() =~= old(self).remaining().drop_first());
            first
        }
    }

    /// The number of elements still to come, as both bounds.
    pub fn size_hint(&self) -> (hint: (usize, Option<usize>))
        ensures
            hint.0 == self.remaining().len(),
            hint.1 == Some(hint.0),
    {
        let size = self.slice.len();
        (size, Some(size))
    }
}

/// Walks the live elements by exclusive reference, front to back.
pub struct JosieVecIterMut<'a, T> {
    pub(crate) slice: Vec<&'a mut T>,
}

impl<'a, T> JosieVecIterMut<'a, T> {
    /// The references still to come, front first.
    pub closed spec fn pending(self) -> Seq<&'a mut T> {
        self.slice@.reverse()
    }

    /// Splits the first reference off the front of what remains.
    pub fn next(&mut self) -> (element: Option<&'a mut T>)
        ensures
            old(self).pending().len() == 0 ==> element is None,
            old(self).pending().len() == 0 ==> final(self).pending() == old(self).pending(),
            old(self).pending().len() > 0 ==> element == Some(old(self).pending()[0]),
            old(self).pending().len() > 0 ==> final(self).pending()
                == old(self).pending().drop_first(),
    {
        let element = self.slice.pop();
        assert(old(self).pending().len() > 0 ==> final(self).pending()
            =~= old(self).pending().drop_first());
        element
    }

    /// The number of references still to come, as both bounds.
    pub fn size_hint(&self) -> (hint: (usize, Option<usize>))
        ensures
            hint.0 == self.pending().len(),
            hint.1 == Some(hint.0),
    {
        let size = self.slice.len();
        (size, Some(size))
    }
}

/// Turns a run of initialized slots into references to their elements, in
/// the same order.
pub(crate) fn element_refs<'a, T>(slots: &'a mut [Option<T>]) -> (refs: Vec<&'a mut T>)
    requires
        all_initialized(old(slots)@),
    ensures
        refs@.len() == old(slots)@.len(),
        forall|i: int| 0 <= i < refs@.len() ==> *(#[trigger] refs@[i]) == old(slots)@[i]->0,
        final(slots)@.len() == old(slots)@.len(),
        forall|i: int|
            0 <= i < refs@.len() ==> final(slots)@[i] == Some(*final(#[trigger] refs@[i])),
{
    let ghost before = slots@;
    let ghost settled = final(slots)@;
    let mut refs: Vec<&'a mut T> = Vec::new();
    let mut rest: &'a mut [Option<T>] = slots;
    while rest.len() > 0
        invariant
            refs@.len() + rest@.len() == before.len(),
            all_initialized(rest@),
            forall|i: int| 0 <= i < refs@.len() ==> *(#[trigger] refs@[i]) == before[i]->0,
            forall|i: int| 0 <= i < rest@.len() ==> #[trigger] rest@[i] == before[refs@.len() + i],
            settled.len() == refs@.len() + final(rest)@.len(),
            forall|i: int| 0 <= i < refs@.len() ==> settled[i] == Some(*final(#[trigger] refs@[i])),
            forall|i: int|
                0 <= i < final(rest)@.len() ==> settled[refs@.len() + i] == final(rest)@[i],
        decreases rest@.len(),
    {
        let ghost taken = refs@.len() as int;
        let ghost rest_settled = final(rest)@;
        let (head, tail) = rest.split_at_mut(1);
        let ghost head_settled = final(head)@;
        let ghost tail_settled = final(tail)@;
        assert(rest_settled == head_settled + tail_settled);
        let element = head[0].as_mut().unwrap();
        assert(head_settled.len() == 1);
        assert(head_settled[0] == Some(*final(element)));
        refs.push(element);
        rest = tail;
        assert(settled[taken] == rest_settled[0]);
        assert forall|i: int| 0 <= i < final(rest)@.len() implies settled[refs@.len() + i]
            == final(rest)@[i] by {
            assert(rest_settled[i + 1] == tail_settled[i]);
            assert(settled[taken + (i + 1)] == rest_settled[i + 1]);
        }
    }
    refs
}

/// Walks the elements of a container by value, front to back. The iterator
/// owns the buffer that the container had; what it has not yielded when it
/// goes away is dropped with the buffer.
pub struct JosieVecIter<T> {
    pub(crate) slots: Vec<Option<T>>,
    pub(crate) start_ptr: usize,
    pub(crate) ptr: usize,
    pub(crate) end_ptr: usize,
}

impl<T> JosieVecIter<T> {
    #[verifier::type_invariant]
    spec fn in_bounds(self) -> bool {
        &&& self.start_ptr <= self.ptr <= self.end_ptr <= self.slots@.len()
        &&& forall|i: int| self.ptr <= i < self.end_ptr ==> (#[trigger] self.slots@[i]) is Some
    }

    /// The elements still to come.
    pub closed spec fn remaining(self) -> Seq<T> {
        Seq::new((self.end_ptr - self.ptr) as nat, |i: int| self.slots@[self.ptr + i]->0)
    }

    /// The number of elements the iterator began with.
    pub closed spec fn total(self) -> usize {
        (self.end_ptr - self.start_ptr) as usize
    }

    /// Moves the next element out, or yields nothing once all are out.
    pub fn next(&mut self) -> (element: Option<T>)
        ensures
            final(self).total() == old(self).total(),
            old(self).remaining().len() == 0 ==> element is None && final(self).remaining()
                == old(self).remaining(),
            old(self).remaining().len() > 0 ==> element == Some(old(self).remaining()[0])
                && final(self).remaining() == old(self).remaining().drop_first(),
    {
        proof {
            use_type_invariant(&*self);
        }
        if self.ptr == self.end_ptr {
            return None;
        }
        let at = self.ptr;
        self.ptr = at + 1;
        let out = self.slots[at].take();
        assert(final(self).remaining() =~= old(self).remaining().drop_first());
        assert(old(self).remaining()[0] == old(self).slots@[at as int]->0);
        out
    }

    /// The number of elements the iterator began with, as both bounds.
    pub fn size_hint(&self) -> (hint: (usize, Option<usize>))
        ensures
            hint.0 == self.total(),
            hint.1 == Some(hint.0),
    {
        proof {
            use_type_invariant(self);
        }
        let size = self.end_ptr - self.start_ptr;
        (size, Some(size))
    }
}

impl<T> ElementSource<T> for JosieVecIter<T> {
    open spec fn ready(&self) -> bool {
        true
    }

    open spec fn items(&self) -> Seq<T> {
        self.remaining()
    }

    open spec fn hint(&self) -> (usize, Option<usize>) {
        (self.total(), Some(self.total()))
    }

    fn size_hint(&self) -> (hint: (usize, Option<usize>)) {
        JosieVecIter::size_hint(self)
    }

    fn next(&mut self) -> (element: Option<T>) {
        JosieVecIter::next(self)
    }
}

impl<T> JosieVec<T> {
    /// An iterator over the live elements by shared reference.
    pub fn iter(&self) -> (iter: JosieVecIterRef<'_, T>)
        requires
            self.wf(),
        ensures
            iter.remaining() == self@,
    {
        let iter = JosieVecIterRef { slice: self.buf.prefix(self.len) };
        assert(iter.remaining() =~= self@);
        iter
    }

    /// An iterator over the live elements by exclusive reference. When the
    /// references are done with, the container holds what was left in them.
    pub fn iter_mut(&mut self) -> (iter: JosieVecIterMut<'_, T>)
        requires
            old(self).wf(),
        ensures
            iter.pending().len() == old(self)@.len(),
            forall|i: int|
                0 <= i < old(self)@.len() ==> *(#[trigger] iter.pending()[i]) == old(self)@[i],
            final(self).wf(),
            final(self).spec_capacity() == old(self).spec_capacity(),
            final(self)@.len() == old(self)@.len(),
            forall|i: int|
                0 <= i < old(self)@.len() ==> final(self)@[i]
                    == *final(#[trigger] iter.pending()[i]),
    {
        let ghost settled = *final(self);
        let mut forward = self.as_mut_slice();
        let ghost refs = forward@;
        let mut slice: Vec<&mut T> = Vec::new();
        while forward.len() > 0
            invariant
                forward@.len() + slice@.len() == refs.len(),
                forall|i: int| 0 <= i < forward@.len() ==> #[trigger] forward@[i] == refs[i],
                forall|i: int|
                    0 <= i < slice@.len() ==> *(#[trigger] slice@[i]) == *refs[refs.len() - 1 - i]
                        && *final(slice@[i]) == *final(refs[refs.len() - 1 - i]),
            decreases forward@.len(),
        {
            let ghost before = forward@;
            let ghost filled = slice@;
            let last = forward.pop().unwrap();
            assert(last == before[before.len() - 1]);
            assert(forward@ =~= before.take(before.len() - 1));
            let ghost last_now = *last;
            let ghost last_settled = *final(last);
            slice.push(last);
            assert forall|i: int| 0 <= i < slice@.len() implies *(#[trigger] slice@[i]) == *refs[refs.len()
                - 1 - i] && *final(slice@[i]) == *final(refs[refs.len() - 1 - i]) by {
                if i < filled.len() {
                    assert(slice@[i] == filled[i]);
                } else {
                    assert(before[before.len() - 1] == refs[before.len() - 1]);
                    assert(*slice@[i] == last_now);
                    assert(*final(slice@[i]) == last_settled);
                }
            }
        }
        let iter = JosieVecIterMut { slice };
        assert forall|i: int| 0 <= i < old(self)@.len() implies *(#[trigger] iter.pending()[i])
            == old(self)@[i] && settled@[i] == *final(iter.pending()[i]) by {
            assert(iter.pending()[i] == iter.slice@[refs.len() - 1 - i]);
            assert(*refs[i] == old(self)@[i]);
        }
        iter
    }

    /// References to the live elements, in index order.
    pub fn as_slice(&self) -> (slice: Vec<&T>)
        requires
            self.wf(),
        ensures
            slice@.len() == self@.len(),
            forall|i: int| 0 <= i < slice@.len() ==> *(#[trigger] slice@[i]) == self@[i],
    {
        let mut slice: Vec<&T> = Vec::new();
        let mut at: usize = 0;
        while at < self.len
            invariant
                self.wf(),
                at <= self.len,
                slice@.len() == at,
                forall|i: int| 0 <= i < at ==> *(#[trigger] slice@[i]) == self@[i],
            decreases self.len - at,
        {
            slice.push(self.buf.peek(at));
            at += 1;
        }
        slice
    }

    /// Exclusive references to the live elements, in index order. When the
    /// references are done with, the container holds what was left in them.
    pub fn as_mut_slice(&mut self) -> (slice: Vec<&mut T>)
        requires
            old(self).wf(),
        ensures
            slice@.len() == old(self)@.len(),
            forall|i: int| 0 <= i < slice@.len() ==> *(#[trigger] slice@[i]) == old(self)@[i],
            final(self).wf(),
            final(self).spec_capacity() == old(self).spec_capacity(),
            final(self)@.len() == old(self)@.len(),
            forall|i: int|
                0 <= i < slice@.len() ==> final(self)@[i] == *final(#[trigger] slice@[i]),
    {
        let ghost settled = *final(self);
        let ghost before = *self;
        let live = self.buf.prefix_mut(self.len);
        let ghost live_settled = final(live)@;
        let slice = element_refs(live);
        proof {
            assert(settled.slots() == live_settled + before.slots().skip(before.spec_len() as int));
            assert(settled.spec_len() == before.spec_len());
            assert forall|i: int| 0 <= i < settled.spec_len() implies (
            #[trigger] settled.slots()[i]) is Some by {
                assert(live_settled[i] == Some(*final(slice@[i])));
                assert(settled.slots()[i] == live_settled[i]);
            }
            assert(settled.slots().len() == before.slots().len());
            assert(settled@.len() == before@.len());
            assert forall|i: int| 0 <= i < slice@.len() implies settled@[i]
                == *final(#[trigger] slice@[i]) by {
                assert(settled.slots()[i] == live_settled[i]);
            }
        }
        slice
    }

    /// An iterator over the elements by value. It takes the buffer over; the
    /// container is gone.
    pub fn into_iter(self) -> (iter: JosieVecIter<T>)
        requires
            self.wf(),
        ensures
            iter.remaining() == self@,
            iter.total() == self.spec_len(),
    {
        let JosieVec { buf, len } = self;
        let iter = JosieVecIter { slots: buf.into_slots(), start_ptr: 0, ptr: 0, end_ptr: len };
        assert(iter.remaining() =~= self@);
        iter
    }
}

} // verus!
