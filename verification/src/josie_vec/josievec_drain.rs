//! Draining: taking a contiguous range of elements out of a container, one at
//! a time, and closing the gap afterwards.

use super::josievec_extend::ElementSource;
use super::JosieVec;
use core::ops::Range;
use vstd::prelude::*;

verus! {

/// A cursor over a range of a container that is being removed.
///
/// While the cursor is in use the container under it holds only the elements
/// in front of the range. The elements of the range that have not been
/// yielded, and the elements behind the range, wait in their slots.
/// `finish` drops what was not yielded, moves the elements behind the range
/// down to where the range began, and makes them live again.
pub struct JosieVecDrain<'a, T> {
    pub(crate) josievec: &'a mut JosieVec<T>,
    pub(crate) start_ptr: usize,
    pub(crate) ptr: usize,
    pub(crate) end_ptr: usize,
    pub(crate) old_len: usize,
}

impl<'a, T> JosieVecDrain<'a, T> {
    /// The container under the cursor.
    pub closed spec fn target(self) -> &'a mut JosieVec<T> {
        self.josievec
    }

    /// The slot at which the range begins.
    pub closed spec fn start_ptr(self) -> usize {
        self.start_ptr
    }

    /// The slot of the next element to yield.
    pub closed spec fn ptr(self) -> usize {
        self.ptr
    }

    /// The slot behind the last element of the range.
    pub closed spec fn end_ptr(self) -> usize {
        self.end_ptr
    }

    /// The length the container had before the range was taken out of it.
    pub closed spec fn old_len(self) -> usize {
        self.old_len
    }

    /// What holds of a cursor in use: the container under it is well formed
    /// and ends where the range begins, the cursor lies within the range, the
    /// range within the former length, and every slot from the cursor up to
    /// the former length is initialized.
    pub open spec fn valid(self) -> bool {
        &&& self.target().wf()
        &&& self.target().spec_len() == self.start_ptr()
        &&& self.start_ptr() <= self.ptr() <= self.end_ptr() <= self.old_len()
        &&& self.old_len() <= self.target().slots().len()
        &&& forall|i: int|
            self.ptr() <= i < self.old_len() ==> (#[trigger] self.target().slots()[i]) is Some
    }

    /// The elements of the range that have not been yielded, in order.
    pub open spec fn pending(self) -> Seq<T> {
        Seq::new(
            (self.end_ptr() - self.ptr()) as nat,
            |i: int| self.target().slots()[self.ptr() + i]->0,
        )
    }

    /// The elements behind the range, in order.
    pub open spec fn tail(self) -> Seq<T> {
        Seq::new(
            (self.old_len() - self.end_ptr()) as nat,
            |i: int| self.target().slots()[self.end_ptr() + i]->0,
        )
    }

    /// Yields the next element of the range, or nothing once the cursor has
    /// reached the end of the range.
    pub fn next(&mut self) -> (element: Option<T>)
        requires
            old(self).valid(),
        ensures
            final(self).valid(),
            *final(final(self).target()) == *final(old(self).target()),
            final(self).start_ptr() == old(self).start_ptr(),
            final(self).end_ptr() == old(self).end_ptr(),
            final(self).old_len() == old(self).old_len(),
            final(self).target()@ == old(self).target()@,
            final(self).tail() == old(self).tail(),
            old(self).pending().len() == 0 ==> element is None,
            old(self).pending().len() == 0 ==> final(self).pending() == old(self).pending(),
            old(self).pending().len() > 0 ==> element == Some(old(self).pending()[0]),
            old(self).pending().len() > 0 ==> final(self).pending()
                == old(self).pending().drop_first(),
    {
        if self.ptr == self.end_ptr {
            assert(final(self).pending() =~= old(self).pending());
            return None;
        }
        let out = self.josievec.take_slot(self.ptr);
        self.ptr += 1;
        assert(final(self).target()@ =~= old(self).target()@);
        assert(final(self).tail() =~= old(self).tail());
        assert(final(self).pending() =~= old(self).pending().drop_first());
        assert(old(self).pending()[0] == old(self).target().slots()[old(self).ptr() as int]->0);
        out
    }

    /// The number of elements in the range, yielded or not, as both bounds.
    pub fn size_hint(&self) -> (hint: (usize, Option<usize>))
        requires
            self.valid(),
        ensures
            hint.0 == self.end_ptr() - self.start_ptr(),
            hint.1 == Some(hint.0),
    {
        let size = self.end_ptr - self.start_ptr;
        (size, Some(size))
    }

    /// Ends the cursor: drops the elements of the range that were not
    /// yielded, moves the elements behind the range down to where the range
    /// began, and sets the container's length to what is left.
    pub fn finish(self)
        requires
            self.valid(),
        ensures
            final(self.target()).wf(),
            final(self.target())@ == self.target()@ + self.tail(),
            final(self.target()).spec_capacity() == self.target().spec_capacity(),
            final(self.target()).spec_len() == self.old_len() - (self.end_ptr()
                - self.start_ptr()),
    {
        let JosieVecDrain { josievec, start_ptr, ptr, end_ptr, old_len } = self;
        let ghost before = josievec.slots();
        let mut at: usize = ptr;
        while at < end_ptr
            invariant
                self.valid(),
                before == self.target().slots(),
                ptr == self.ptr(),
                end_ptr == self.end_ptr(),
                ptr <= at <= end_ptr,
                josievec.spec_len() == self.target().spec_len(),
                josievec.slots().len() == before.len(),
                forall|i: int|
                    0 <= i < before.len() && !(ptr <= i < at) ==> #[trigger] josievec.slots()[i]
                        == before[i],
            decreases end_ptr - at,
        {
            let dropped = josievec.take_slot(at);
            at += 1;
        }
        let remaining = old_len - end_ptr;
        let gap = end_ptr - start_ptr;
        let mut moved: usize = 0;
        while moved < remaining && gap > 0
            invariant
                self.valid(),
                before == self.target().slots(),
                start_ptr == self.start_ptr(),
                end_ptr == self.end_ptr(),
                old_len == self.old_len(),
                moved <= remaining,
                remaining == old_len - end_ptr,
                gap == end_ptr - start_ptr,
                josievec.spec_len() == self.target().spec_len(),
                josievec.slots().len() == before.len(),
                forall|i: int| 0 <= i < start_ptr ==> #[trigger] josievec.slots()[i] == before[i],
                forall|i: int|
                    start_ptr <= i < start_ptr + moved ==> #[trigger] josievec.slots()[i]
                        == before[i + gap],
                forall|i: int|
                    end_ptr + moved <= i < old_len ==> #[trigger] josievec.slots()[i] == before[i],
            decreases remaining - moved,
        {
            let element = josievec.take_slot(end_ptr + moved);
            match element {
                Some(element) => {
                    josievec.write_slot(start_ptr + moved, element);
                },
                None => {},
            }
            moved += 1;
        }
        assert forall|i: int| 0 <= i < start_ptr + remaining implies (
        #[trigger] josievec.slots()[i]) is Some by {
            if i >= start_ptr {
                assert(before[i + gap] is Some);
            }
        }
        josievec.set_len(start_ptr + remaining);
        assert(josievec@ =~= self.target()@ + self.tail());
    }
}

/// What is left of `contents` when the range from `start` to `end` is taken
/// out: the elements in front of the range, then those behind it.
pub open spec fn without_range<T>(contents: Seq<T>, start: int, end: int) -> Seq<T> {
    contents.take(start) + contents.subrange(end, contents.len() as int)
}

/// Taking a range out shortens the contents by the length of the range and
/// keeps every other element, in its order: those in front of the range stay
/// where they were, those behind it move down by the length of the range.
pub proof fn lemma_without_range<T>(contents: Seq<T>, start: int, end: int)
    requires
        0 <= start <= end <= contents.len(),
    ensures
        without_range(contents, start, end).len() == contents.len() - (end - start),
        forall|i: int|
            0 <= i < start ==> #[trigger] without_range(contents, start, end)[i] == contents[i],
        forall|i: int|
            start <= i < contents.len() - (end - start) ==> #[trigger] without_range(
                contents,
                start,
                end,
            )[i] == contents[i + (end - start)],
{
}

impl<'a, T> ElementSource<T> for JosieVecDrain<'a, T> {
    open spec fn ready(&self) -> bool {
        self.valid()
    }

    open spec fn items(&self) -> Seq<T> {
        self.pending()
    }

    open spec fn hint(&self) -> (usize, Option<usize>) {
        (
            (self.end_ptr() - self.start_ptr()) as usize,
            Some((self.end_ptr() - self.start_ptr()) as usize),
        )
    }

    fn size_hint(&self) -> (hint: (usize, Option<usize>)) {
        JosieVecDrain::size_hint(self)
    }

    fn next(&mut self) -> (element: Option<T>) {
        JosieVecDrain::next(self)
    }
}

impl<T> JosieVec<T> {
    /// Starts taking the elements of `range` out of the container. The range
    /// is half open and has to lie within the contents: its end may be the
    /// length.
    pub fn drain(&mut self, range: Range<usize>) -> (drain: JosieVecDrain<'_, T>)
        requires
            old(self).wf(),
            range.start <= range.end <= old(self).spec_len(),
        ensures
            drain.valid(),
            *final(self) == *final(drain.target()),
            drain.start_ptr() == range.start,
            drain.ptr() == range.start,
            drain.end_ptr() == range.end,
            drain.old_len() == old(self).spec_len(),
            drain.target()@ == old(self)@.take(range.start as int),
            drain.pending() == old(self)@.subrange(range.start as int, range.end as int),
            drain.tail() == old(self)@.subrange(range.end as int, old(self).spec_len() as int),
            drain.target()@ + drain.tail() == without_range(
                old(self)@,
                range.start as int,
                range.end as int,
            ),
            drain.target().spec_capacity() == old(self).spec_capacity(),
    {
        let old_len = self.len();
        self.set_len(range.start);
        let drain = JosieVecDrain {
            josievec: self,
            start_ptr: range.start,
            ptr: range.start,
            end_ptr: range.end,
            old_len,
        };
        assert(drain.target()@ =~= old(self)@.take(range.start as int));
        assert(drain.pending() =~= old(self)@.subrange(range.start as int, range.end as int));
        assert(drain.tail() =~= old(self)@.subrange(
            range.end as int,
            old(self).spec_len() as int,
        ));
        drain
    }
}

} // verus!
