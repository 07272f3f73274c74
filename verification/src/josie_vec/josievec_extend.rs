//! Bulk population: writing many elements into spare capacity through a
//! guarded cursor, and the reservation strategies that `extend` picks from a
//! source's size hint.

use super::josievec_capacity::{capacity_after_push, doubled_until, grown_capacity, reserve_fits};
use super::josievec_capacity::{lemma_doubled_until_bounds, lemma_reserve_fits};
use super::JosieVec;
use vstd::prelude::*;

verus! {

/// A write cursor into the spare slots of a container.
///
/// The guard is armed on a container and from then on only its cursor moves:
/// each write fills the slot under the cursor and steps one slot forward. The
/// container's length stays what it was until the guard ends, in one of two
/// ways. `release` sets the length from how far the cursor has come, so the
/// container then holds exactly the elements that were written. `commit`
/// leaves the length alone and hands the slots over to the caller.
pub struct JosieVecGuard<'a, T> {
    start_len: usize,
    josievec: &'a mut JosieVec<T>,
    start_ptr: usize,
    ptr: usize,
}

impl<'a, T> JosieVecGuard<'a, T> {
    /// The container under the guard.
    pub closed spec fn target(self) -> &'a mut JosieVec<T> {
        self.josievec
    }

    /// The length the container had when the guard was armed.
    pub closed spec fn start_len(self) -> usize {
        self.start_len
    }

    /// The slot at which writing began.
    pub closed spec fn start_ptr(self) -> usize {
        self.start_ptr
    }

    /// The slot the next write goes to.
    pub closed spec fn ptr(self) -> usize {
        self.ptr
    }

    /// What holds of a guard in use: the container under it is well formed and
    /// still has the length it was armed with, writing began at that length,
    /// the cursor has not moved backward nor past the capacity, and every
    /// slot it has passed is initialized.
    pub open spec fn valid(self) -> bool {
        &&& self.target().wf()
        &&& self.target().spec_len() == self.start_len()
        &&& self.start_ptr() == self.start_len()
        &&& self.start_ptr() <= self.ptr() <= self.target().slots().len()
        &&& forall|i: int|
            self.start_ptr() <= i < self.ptr() ==> (#[trigger] self.target().slots()[i]) is Some
    }

    /// The elements written so far, in the order they were written.
    pub open spec fn written(self) -> Seq<T> {
        Seq::new(
            (self.ptr() - self.start_ptr()) as nat,
            |i: int| self.target().slots()[self.start_ptr() + i]->0,
        )
    }

    /// The number of slots left between the cursor and the capacity.
    pub open spec fn spare(self) -> nat {
        (self.target().slots().len() - self.ptr()) as nat
    }

    /// Whether `next` is this guard after some writes: armed at the same
    /// place, the cursor no further back, the buffer of the same size, and
    /// every slot under the earlier cursor as it was.
    pub open spec fn advanced_to(self, next: Self) -> bool {
        &&& next.start_len() == self.start_len()
        &&& next.start_ptr() == self.start_ptr()
        &&& self.ptr() <= next.ptr()
        &&& next.target().slots().len() == self.target().slots().len()
        &&& forall|i: int|
            0 <= i < self.ptr() ==> #[trigger] next.target().slots()[i] == self.target().slots()[i]
    }

    /// Arms a guard at the end of the live elements of `josievec`.
    pub fn arm(josievec: &'a mut JosieVec<T>) -> (guard: Self)
        requires
            old(josievec).wf(),
        ensures
            guard.valid(),
            guard.ptr() == guard.start_ptr(),
            guard.start_len() == old(josievec).spec_len(),
            *guard.target() == *old(josievec),
            *final(guard.target()) == *final(josievec),
    {
        let len = josievec.len();
        JosieVecGuard { start_len: len, josievec, start_ptr: len, ptr: len }
    }

    /// The number of slots left between the cursor and the capacity.
    pub fn remaining(&self) -> (spare: usize)
        requires
            self.valid(),
        ensures
            spare == self.spare(),
    {
        self.josievec.capacity() - self.ptr
    }

    /// Writes `element` into the slot under the cursor and moves the cursor
    /// one slot forward.
    pub fn write(&mut self, element: T)
        requires
            old(self).valid(),
            old(self).spare() > 0,
        ensures
            final(self).valid(),
            old(self).advanced_to(*final(self)),
            *final(final(self).target()) == *final(old(self).target()),
            final(self).ptr() == old(self).ptr() + 1,
            final(self).written() == old(self).written().push(element),
            final(self).target().slots() == old(self).target().slots().update(
                old(self).ptr() as int,
                Some(element),
            ),
    {
        self.josievec.write_slot(self.ptr, element);
        self.ptr += 1;
        assert(final(self).written() =~= old(self).written().push(element));
    }

    /// Pulls items from `source` and writes them, until `limit` items have
    /// been written or the source yields nothing. Tells whether the source
    /// yielded nothing, which it is asked to only while the limit is not
    /// reached.
    pub fn fill<S: ElementSource<T>>(&mut self, limit: usize, source: &mut S) -> (ended: bool)
        requires
            old(self).valid(),
            old(source).ready(),
            limit <= old(self).spare(),
        ensures
            final(self).valid(),
            final(source).ready(),
            old(self).advanced_to(*final(self)),
            *final(final(self).target()) == *final(old(self).target()),
            final(self).ptr() == old(self).ptr() + least(limit as nat, old(source).items().len()),
            final(self).written() == old(self).written() + old(source).items().take(
                least(limit as nat, old(source).items().len()) as int,
            ),
            final(source).items() == old(source).items().skip(
                least(limit as nat, old(source).items().len()) as int,
            ),
            ended <==> old(source).items().len() < limit,
    {
        let ghost all = source.items();
        let mut pulled: usize = 0;
        assert(all.take(0) =~= Seq::<T>::empty());
        assert(self.written() + all.take(0) =~= self.written());
        assert(all.skip(0) =~= all);
        while pulled < limit
            invariant
                self.valid(),
                source.ready(),
                all == old(source).items(),
                pulled <= limit,
                pulled <= all.len(),
                limit <= old(self).spare(),
                old(self).advanced_to(*self),
                *final(self.target()) == *final(old(self).target()),
                self.ptr() == old(self).ptr() + pulled,
                self.written() == old(self).written() + all.take(pulled as int),
                source.items() == all.skip(pulled as int),
            decreases limit - pulled,
        {
            match source.next() {
                Some(element) => {
                    self.write(element);
                    pulled += 1;
                    assert(all.take(pulled as int) =~= all.take(pulled - 1).push(element));
                    assert(self.written() =~= old(self).written() + all.take(pulled as int));
                    assert(source.items() =~= all.skip(pulled as int));
                },
                None => {
                    assert(all.skip(pulled as int).len() == all.len() - pulled);
                    return true;
                },
            }
        }
        false
    }

    /// Ends the guard and leaves the container's length as it was armed with.
    /// The slots that were written stay initialized; what becomes of them is
    /// up to the caller.
    pub fn commit(self)
        ensures
            *final(self.target()) == *self.target(),
    {
    }

    /// Ends the guard and sets the container's length from how far the cursor
    /// has come, so that the container holds what it held and, after it, what
    /// was written.
    pub fn release(self)
        requires
            self.valid(),
        ensures
            final(self.target()).wf(),
            final(self.target()).slots() == self.target().slots(),
            final(self.target()).spec_len() == self.start_len() + (self.ptr() - self.start_ptr()),
            final(self.target())@ == self.target()@ + self.written(),
    {
        let JosieVecGuard { start_len, josievec, start_ptr, ptr } = self;
        josievec.set_len(start_len + (ptr - start_ptr));
        assert(josievec@ =~= self.target()@ + self.written());
    }
}

/// How `bulk_extend_guarded` makes room before it hands out the cursor.
pub enum ExtendType {
    /// Reserve for exactly this many more elements.
    Exact(usize),
    /// Grow by one amortized step if the buffer is full, and offer whatever
    /// is spare.
    Ammortized,
}

impl<T> JosieVec<T> {
    /// The capacity `bulk_extend_guarded` brings the buffer to.
    pub open spec fn bulk_capacity(&self, extend_type: ExtendType) -> nat {
        match extend_type {
            ExtendType::Exact(elements) => doubled_until(
                self.spec_capacity() as nat,
                (self.spec_len() + elements) as nat,
            ),
            ExtendType::Ammortized => capacity_after_push(
                self.spec_len() as nat,
                self.spec_capacity() as nat,
            ),
        }
    }

    /// Whether `bulk_extend_guarded` can make the room it is asked for.
    pub open spec fn bulk_fits(&self, extend_type: ExtendType) -> bool {
        match extend_type {
            ExtendType::Exact(elements) => reserve_fits(
                self.spec_capacity() as nat,
                (self.spec_len() + elements) as nat,
            ),
            ExtendType::Ammortized => capacity_after_push(
                self.spec_len() as nat,
                self.spec_capacity() as nat,
            ) <= usize::MAX,
        }
    }

    /// The number of slots `bulk_extend_guarded` tells the writer to fill.
    pub open spec fn bulk_elems(&self, extend_type: ExtendType) -> usize {
        match extend_type {
            ExtendType::Exact(elements) => elements,
            ExtendType::Ammortized => (self.bulk_capacity(extend_type) - self.spec_len()) as usize,
        }
    }

    /// What `bulk_extend_guarded` hands to the writer: a guard freshly armed
    /// on the container after room was made, and the number of slots to
    /// fill, which are spare.
    pub open spec fn armed_for(
        &self,
        extend_type: ExtendType,
        guard: JosieVecGuard<T>,
        elems: usize,
    ) -> bool {
        &&& guard.valid()
        &&& guard.ptr() == guard.start_ptr()
        &&& guard.start_len() == self.spec_len()
        &&& guard.target()@ == self@
        &&& guard.target().slots().len() == self.bulk_capacity(extend_type)
        &&& elems == self.bulk_elems(extend_type)
        &&& elems <= guard.spare()
    }

    /// Makes room as `extend_type` says, arms a guard at the end of the live
    /// elements and hands it to `f` together with the number of slots to
    /// fill. When `f` is done the guard sets the length from how far its
    /// cursor has come: the container then holds what it held and, after it,
    /// exactly what `f` wrote, be that all it was asked for or less.
    ///
    /// The writer may only work the guard it is given forward.
    pub fn bulk_extend_guarded<F>(&mut self, extend_type: ExtendType, f: F) where
        F: FnOnce(&mut JosieVecGuard<T>, usize),

        requires
            old(self).wf(),
            old(self).bulk_fits(extend_type),
            forall|guard: &mut JosieVecGuard<T>, elems: usize|
                old(self).armed_for(extend_type, *guard, elems) ==> #[trigger] call_requires(
                    f,
                    (guard, elems),
                ),
            forall|guard: &mut JosieVecGuard<T>, elems: usize|
                guard.valid() && #[trigger] call_ensures(f, (guard, elems), ())
                    ==> final(guard).valid() && guard.advanced_to(*final(guard))
                    && *final(final(guard).target()) == *final(guard.target()),
        ensures
            final(self).wf(),
            final(self).spec_capacity() == old(self).bulk_capacity(extend_type),
            exists|guard: &mut JosieVecGuard<T>|
                (#[trigger] call_ensures(f, (guard, old(self).bulk_elems(extend_type)), ())
                    && old(self).armed_for(extend_type, *guard, old(self).bulk_elems(extend_type))
                    && final(self)@ == old(self)@ + final(guard).written()),
    {
        let elems: usize;
        match extend_type {
            ExtendType::Exact(elements) => {
                proof {
                    lemma_reserve_fits(
                        self.spec_capacity() as nat,
                        (self.spec_len() + elements) as nat,
                    );
                }
                self.reserve(elements);
                elems = elements;
            },
            ExtendType::Ammortized => {
                if self.len() == self.capacity() {
                    self.grow_amortized();
                }
                assert(self@.len() == old(self)@.len());
                elems = self.capacity() - self.len();
            },
        }
        assert(self@ == old(self)@);
        let mut guard = JosieVecGuard::arm(self);
        assert(old(self).armed_for(extend_type, guard, elems));
        let ghost before = guard;
        f(&mut guard, elems);
        assert(guard.valid());
        assert(before.advanced_to(guard));
        assert(guard.target()@ =~= old(self)@);
        guard.release();
    }
}

/// A source of elements for `extend`: it reports a size hint, then yields its
/// items one at a time until none is left.
///
/// The hint is a lower bound and, if known, an upper bound on the number of
/// items. Nothing ties the hint to the items: a source may yield fewer than
/// its lower bound or more than its upper bound, and `extend` says what it
/// does then.
pub trait ElementSource<T> {
    /// What the source needs to hold of itself to be used. Nothing, unless a
    /// source says otherwise.
    open spec fn ready(&self) -> bool {
        true
    }

    /// The items still to come, in the order they come. None, unless a
    /// source says otherwise.
    open spec fn items(&self) -> Seq<T> {
        Seq::empty()
    }

    /// The size hint that the source reports. That of an empty source,
    /// unless a source says otherwise.
    open spec fn hint(&self) -> (usize, Option<usize>) {
        (0, Some(0))
    }

    /// Reports the size hint.
    fn size_hint(&self) -> (hint: (usize, Option<usize>))
        requires
            self.ready(),
        ensures
            hint == self.hint(),
    ;

    /// Yields the next item, or nothing once the items are used up.
    fn next(&mut self) -> (element: Option<T>)
        requires
            old(self).ready(),
        ensures
            final(self).ready(),
            old(self).items().len() == 0 ==> element is None,
            old(self).items().len() == 0 ==> final(self).items() == old(self).items(),
            old(self).items().len() > 0 ==> element == Some(old(self).items()[0]),
            old(self).items().len() > 0 ==> final(self).items() == old(self).items().drop_first(),
    ;
}

/// The reservation strategy that `extend` follows.
#[derive(PartialEq, Eq, Structural, Clone, Copy, Debug)]
pub enum ExtendStrategy {
    /// The source is empty by its own account: do nothing.
    Nothing,
    /// Reserve once for this many items and write at most that many.
    Exact(usize),
    /// Reserve for the first number and write at most that many, then do the
    /// same for the second number.
    Staged(usize, usize),
    /// Write into what is spare and grow by amortized doubling whenever the
    /// buffer is full, until the source ends.
    Unbounded,
    /// Reserve for this many items and write at most that many, then go on
    /// as `Unbounded`.
    ExactThenUnbounded(usize),
}

/// Whether a size hint orders its bounds the right way round.
pub open spec fn hint_ordered(lower: usize, upper: Option<usize>) -> bool {
    upper is Some ==> upper->0 == 0 || lower <= upper->0
}

/// The strategy for a size hint, case by case.
pub open spec fn strategy_for(lower: usize, upper: Option<usize>) -> ExtendStrategy {
    match upper {
        Some(upper_bound) => if upper_bound == 0 {
            ExtendStrategy::Nothing
        } else if lower == upper_bound {
            ExtendStrategy::Exact(upper_bound)
        } else {
            ExtendStrategy::Staged(lower, (upper_bound - lower) as usize)
        },
        None => if lower == 0 {
            ExtendStrategy::Unbounded
        } else {
            ExtendStrategy::ExactThenUnbounded(lower)
        },
    }
}

/// Picks the strategy for a size hint.
pub fn extend_strategy(lower: usize, upper: Option<usize>) -> (strategy: ExtendStrategy)
    requires
        hint_ordered(lower, upper),
    ensures
        strategy == strategy_for(lower, upper),
{
    match upper {
        Some(upper_bound) => {
            if upper_bound == 0 {
                ExtendStrategy::Nothing
            } else if lower == upper_bound {
                ExtendStrategy::Exact(upper_bound)
            } else {
                ExtendStrategy::Staged(lower, upper_bound - lower)
            }
        },
        None => {
            if lower == 0 {
                ExtendStrategy::Unbounded
            } else {
                ExtendStrategy::ExactThenUnbounded(lower)
            }
        },
    }
}

/// The smaller of two numbers.
pub open spec fn least(a: nat, b: nat) -> nat {
    if a <= b {
        a
    } else {
        b
    }
}

/// The capacity that unbounded extension ends with, from a buffer of `cap`
/// slots holding `len` elements and a source of `count` items. The spare
/// slots are filled first; each time the buffer is full it grows by one
/// amortized step, also when no item is left to come.
pub open spec fn unbounded_capacity(cap: nat, len: nat, count: nat) -> nat
    decreases count, (if len < cap { 0nat } else { 1nat }),
{
    if len < cap {
        if count < cap - len {
            cap
        } else {
            unbounded_capacity(cap, cap, (count - (cap - len)) as nat)
        }
    } else if len == cap {
        unbounded_capacity(grown_capacity(cap), len, count)
    } else {
        cap
    }
}

/// Unbounded extension never ends under the capacity it started with.
pub proof fn lemma_unbounded_capacity_grows(cap: nat, len: nat, count: nat)
    requires
        len <= cap,
    ensures
        unbounded_capacity(cap, len, count) >= cap,
        unbounded_capacity(cap, len, count) > len + count,
    decreases count, (if len < cap { 0nat } else { 1nat }),
{
    if len < cap {
        if count >= cap - len {
            lemma_unbounded_capacity_grows(cap, cap, (count - (cap - len)) as nat);
        }
    } else {
        lemma_unbounded_capacity_grows(grown_capacity(cap), len, count);
    }
}

/// How many items of a source of `count` items a strategy takes.
pub open spec fn extended_count(strategy: ExtendStrategy, count: nat) -> nat {
    match strategy {
        ExtendStrategy::Nothing => 0,
        ExtendStrategy::Exact(bound) => least(bound as nat, count),
        ExtendStrategy::Staged(first, second) => least((first + second) as nat, count),
        ExtendStrategy::Unbounded => count,
        ExtendStrategy::ExactThenUnbounded(_) => count,
    }
}

/// The capacity a strategy ends with, from a buffer of `cap` slots holding
/// `len` elements and a source of `count` items.
pub open spec fn extended_capacity(
    strategy: ExtendStrategy,
    cap: nat,
    len: nat,
    count: nat,
) -> nat {
    match strategy {
        ExtendStrategy::Nothing => cap,
        ExtendStrategy::Exact(bound) => doubled_until(cap, (len + bound) as nat),
        ExtendStrategy::Staged(first, second) => doubled_until(
            doubled_until(cap, (len + first) as nat),
            (len + least(first as nat, count) + second) as nat,
        ),
        ExtendStrategy::Unbounded => unbounded_capacity(cap, len, count),
        ExtendStrategy::ExactThenUnbounded(first) => unbounded_capacity(
            doubled_until(cap, (len + first) as nat),
            len + least(first as nat, count),
            (count - least(first as nat, count)) as nat,
        ),
    }
}

/// What a strategy may come to ask room for, over and above the live
/// elements: the bounds it reserves for and, where it goes on unbounded, the
/// items of the source and one more.
pub open spec fn extend_demand(strategy: ExtendStrategy, count: nat) -> nat {
    match strategy {
        ExtendStrategy::Nothing => 0,
        ExtendStrategy::Exact(bound) => bound as nat,
        ExtendStrategy::Staged(first, second) => (first + second) as nat,
        ExtendStrategy::Unbounded => count + 1,
        ExtendStrategy::ExactThenUnbounded(first) => (first + count + 1) as nat,
    }
}

/// Whether every capacity that a strategy moves to is within `usize`, stage
/// by stage.
pub open spec fn extend_stages_fit(
    strategy: ExtendStrategy,
    cap: nat,
    len: nat,
    count: nat,
) -> bool {
    &&& extended_capacity(strategy, cap, len, count) <= usize::MAX
    &&& match strategy {
        ExtendStrategy::Staged(first, _) => doubled_until(cap, (len + first) as nat) <= usize::MAX,
        ExtendStrategy::ExactThenUnbounded(first) => doubled_until(cap, (len + first) as nat)
            <= usize::MAX,
        _ => true,
    }
}

/// Whether `extend` can make the room that a strategy asks for. It can
/// whenever twice the live elements and the demand together are within
/// `usize`, which is the first alternative; the second says it outright.
pub open spec fn extend_fits(strategy: ExtendStrategy, cap: nat, len: nat, count: nat) -> bool {
    2 * (len + extend_demand(strategy, count)) <= usize::MAX || extend_stages_fit(
        strategy,
        cap,
        len,
        count,
    )
}

/// Unbounded extension ends with the capacity it began with or with less
/// than twice what it has to hold and one more.
pub proof fn lemma_unbounded_capacity_bound(cap: nat, len: nat, count: nat)
    requires
        len <= cap,
    ensures
        unbounded_capacity(cap, len, count) == cap || unbounded_capacity(cap, len, count) <= 2 * (
        len + count + 1),
    decreases count, (if len < cap { 0nat } else { 1nat }),
{
    if len < cap {
        if count >= cap - len {
            lemma_unbounded_capacity_bound(cap, cap, (count - (cap - len)) as nat);
            lemma_unbounded_capacity_grows(cap, cap, (count - (cap - len)) as nat);
        }
    } else {
        lemma_unbounded_capacity_bound(grown_capacity(cap), len, count);
    }
}

/// The first alternative of `extend_fits` gives the second.
pub proof fn lemma_extend_fits(strategy: ExtendStrategy, cap: nat, len: nat, count: nat)
    requires
        len <= cap <= usize::MAX,
        extend_fits(strategy, cap, len, count),
    ensures
        extend_stages_fit(strategy, cap, len, count),
{
    if 2 * (len + extend_demand(strategy, count)) <= usize::MAX {
        match strategy {
            ExtendStrategy::Nothing => {},
            ExtendStrategy::Exact(bound) => {
                lemma_doubled_until_bounds(cap, (len + bound) as nat);
            },
            ExtendStrategy::Staged(first, second) => {
                let mid = doubled_until(cap, (len + first) as nat);
                lemma_doubled_until_bounds(cap, (len + first) as nat);
                lemma_doubled_until_bounds(
                    mid,
                    (len + least(first as nat, count) + second) as nat,
                );
            },
            ExtendStrategy::Unbounded => {
                lemma_unbounded_capacity_bound(cap, len, count);
            },
            ExtendStrategy::ExactThenUnbounded(first) => {
                let mid = doubled_until(cap, (len + first) as nat);
                let taken = least(first as nat, count);
                lemma_doubled_until_bounds(cap, (len + first) as nat);
                lemma_unbounded_capacity_bound(mid, len + taken, (count - taken) as nat);
            },
        }
    }
}

impl<T> JosieVec<T> {
    /// Pulls at most `bound` items from `source` into room reserved for
    /// `bound` items, and stops early if the source ends.
    pub(crate) fn extend_exact<S: ElementSource<T>>(&mut self, bound: usize, source: &mut S)
        requires
            old(self).wf(),
            old(source).ready(),
            reserve_fits(
                old(self).spec_capacity() as nat,
                (old(self).spec_len() + bound) as nat,
            ),
        ensures
            final(self).wf(),
            final(source).ready(),
            final(self).spec_capacity() == doubled_until(
                old(self).spec_capacity() as nat,
                (old(self).spec_len() + bound) as nat,
            ),
            final(self)@ == old(self)@ + old(source).items().take(
                least(bound as nat, old(source).items().len()) as int,
            ),
            final(source).items() == old(source).items().skip(
                least(bound as nat, old(source).items().len()) as int,
            ),
    {
        proof {
            lemma_reserve_fits(self.spec_capacity() as nat, (self.spec_len() + bound) as nat);
        }
        self.reserve(bound);
        let ghost all = source.items();
        assert(self.spec_len() == old(self).spec_len()) by {
            assert(self@.len() == self.spec_len());
            assert(old(self)@.len() == old(self).spec_len());
        }
        let mut guard = JosieVecGuard::arm(self);
        let ghost armed = guard;
        let ended = guard.fill(bound, source);
        assert(guard.target()@ =~= armed.target()@);
        guard.release();
    }

    /// Pulls every item of `source`, growing by amortized doubling whenever
    /// the buffer is full.
    pub(crate) fn extend_unbounded<S: ElementSource<T>>(&mut self, source: &mut S)
        requires
            old(self).wf(),
            old(source).ready(),
            unbounded_capacity(
                old(self).spec_capacity() as nat,
                old(self).spec_len() as nat,
                old(source).items().len(),
            ) <= usize::MAX,
        ensures
            final(self).wf(),
            final(source).ready(),
            final(self).spec_capacity() == unbounded_capacity(
                old(self).spec_capacity() as nat,
                old(self).spec_len() as nat,
                old(source).items().len(),
            ),
            final(self)@ == old(self)@ + old(source).items(),
            final(source).items().len() == 0,
    {
        let ghost all = source.items();
        let ghost target = unbounded_capacity(
            self.spec_capacity() as nat,
            self.spec_len() as nat,
            all.len(),
        );
        assert(self@.len() == self.spec_len());
        assert(self@ =~= old(self)@ + all.take(0));
        assert(all.skip(0) =~= all);
        loop
            invariant
                self.wf(),
                source.ready(),
                all == old(source).items(),
                0 <= self@.len() - old(self)@.len() <= all.len(),
                self@ == old(self)@ + all.take(self@.len() - old(self)@.len()),
                source.items() == all.skip(self@.len() - old(self)@.len()),
                target <= usize::MAX,
                target == unbounded_capacity(
                    old(self).spec_capacity() as nat,
                    old(self).spec_len() as nat,
                    all.len(),
                ),
                unbounded_capacity(
                    self.spec_capacity() as nat,
                    self.spec_len() as nat,
                    source.items().len(),
                ) == target,
            decreases
                    source.items().len(),
                    (if self.spec_len() < self.spec_capacity() {
                        0nat
                    } else {
                        1nat
                    }),
        {
            let elems = self.capacity() - self.len();
            let ghost round_base = self@;
            let ghost round_items = source.items();
            let ghost done = (self@.len() - old(self)@.len()) as int;
            let ghost round_cap = self.spec_capacity() as nat;
            let ghost round_len = self.spec_len() as nat;
            assert(self@.len() == self.spec_len());
            let mut guard = JosieVecGuard::arm(self);
            let ghost armed = guard;
            let ended = guard.fill(elems, source);
            assert(guard.target()@ =~= armed.target()@);
            guard.release();
            assert(self@.len() == self.spec_len());
            proof {
                let filled = least(elems as nat, round_items.len()) as int;
                assert(all.take(done) + all.skip(done).take(filled) =~= all.take(done + filled));
                assert(all.skip(done).skip(filled) =~= all.skip(done + filled));
                assert(self@ =~= old(self)@ + all.take(done + filled));
            }
            assert(self.spec_capacity() == round_cap);
            if ended {
                proof {
                    assert(all.take(all.len() as int) =~= all);
                    assert(unbounded_capacity(round_cap, round_len, round_items.len())
                        == round_cap);
                }
                return ;
            }
            proof {
                assert(self.spec_len() == round_cap);
                assert(source.items().len() == round_items.len() - (round_cap - round_len));
                assert(unbounded_capacity(round_cap, round_len, round_items.len())
                    == unbounded_capacity(round_cap, round_cap, source.items().len()));
                assert(unbounded_capacity(round_cap, round_cap, source.items().len())
                    == unbounded_capacity(
                    grown_capacity(round_cap),
                    round_cap,
                    source.items().len(),
                ));
                lemma_unbounded_capacity_grows(
                    grown_capacity(round_cap),
                    round_cap,
                    source.items().len(),
                );
            }
            self.grow_amortized();
            assert(self@.len() == self.spec_len());
        }
    }

    /// Appends the items of `source`, reserving room as the source's size
    /// hint suggests: nothing for a source that reports no items, once for a
    /// hint with equal bounds, in two stages for a hint with different
    /// bounds, and by amortized doubling where no upper bound is known.
    ///
    /// A stage with a bound takes at most that many items, so a source that
    /// yields more than its upper bound keeps the rest. A source that yields
    /// fewer than it reported leaves the container with what it yielded.
    pub fn extend<S: ElementSource<T>>(&mut self, source: &mut S)
        requires
            old(self).wf(),
            old(source).ready(),
            hint_ordered(old(source).hint().0, old(source).hint().1),
            extend_fits(
                strategy_for(old(source).hint().0, old(source).hint().1),
                old(self).spec_capacity() as nat,
                old(self).spec_len() as nat,
                old(source).items().len(),
            ),
        ensures
            final(self).wf(),
            final(source).ready(),
            final(self)@ == old(self)@ + old(source).items().take(
                extended_count(
                    strategy_for(old(source).hint().0, old(source).hint().1),
                    old(source).items().len(),
                ) as int,
            ),
            final(source).items() == old(source).items().skip(
                extended_count(
                    strategy_for(old(source).hint().0, old(source).hint().1),
                    old(source).items().len(),
                ) as int,
            ),
            final(self).spec_capacity() == extended_capacity(
                strategy_for(old(source).hint().0, old(source).hint().1),
                old(self).spec_capacity() as nat,
                old(self).spec_len() as nat,
                old(source).items().len(),
            ),
    {
        let ghost all = source.items();
        proof {
            lemma_extend_fits(
                strategy_for(source.hint().0, source.hint().1),
                self.spec_capacity() as nat,
                self.spec_len() as nat,
                all.len(),
            );
        }
        let (lower, upper) = source.size_hint();
        match extend_strategy(lower, upper) {
            ExtendStrategy::Nothing => {
                assert(self@ =~= old(self)@ + all.take(0));
                assert(all.skip(0) =~= all);
            },
            ExtendStrategy::Exact(bound) => {
                self.extend_exact(bound, source);
            },
            ExtendStrategy::Staged(first, second) => {
                self.extend_exact(first, source);
                let ghost taken = least(first as nat, all.len()) as int;
                self.extend_exact(second, source);
                proof {
                    let rest = least(second as nat, all.skip(taken).len()) as int;
                    assert(all.take(taken) + all.skip(taken).take(rest) =~= all.take(taken + rest));
                    assert(all.skip(taken).skip(rest) =~= all.skip(taken + rest));
                }
            },
            ExtendStrategy::Unbounded => {
                self.extend_unbounded(source);
                assert(all.take(all.len() as int) =~= all);
                assert(source.items() =~= all.skip(all.len() as int));
            },
            ExtendStrategy::ExactThenUnbounded(first) => {
                self.extend_exact(first, source);
                let ghost taken = least(first as nat, all.len()) as int;
                self.extend_unbounded(source);
                proof {
                    assert(all.take(taken) + all.skip(taken) =~= all);
                    assert(all.take(all.len() as int) =~= all);
                    assert(source.items() =~= all.skip(all.len() as int));
                }
            },
        }
    }

    /// A container made of the items of `source`, by `extend` from empty.
    pub fn from_iter<S: ElementSource<T>>(source: &mut S) -> (josievec: Self)
        requires
            old(source).ready(),
            hint_ordered(old(source).hint().0, old(source).hint().1),
            extend_fits(
                strategy_for(old(source).hint().0, old(source).hint().1),
                0,
                0,
                old(source).items().len(),
            ),
        ensures
            josievec.wf(),
            final(source).ready(),
            josievec@ == old(source).items().take(
                extended_count(
                    strategy_for(old(source).hint().0, old(source).hint().1),
                    old(source).items().len(),
                ) as int,
            ),
            final(source).items() == old(source).items().skip(
                extended_count(
                    strategy_for(old(source).hint().0, old(source).hint().1),
                    old(source).items().len(),
                ) as int,
            ),
            josievec.spec_capacity() == extended_capacity(
                strategy_for(old(source).hint().0, old(source).hint().1),
                0,
                0,
                old(source).items().len(),
            ),
    {
        let mut temp = JosieVec::new();
        temp.extend(source);
        assert(temp@ =~= old(source).items().take(
            extended_count(
                strategy_for(old(source).hint().0, old(source).hint().1),
                old(source).items().len(),
            ) as int,
        ));
        temp
    }
}

} // verus!
