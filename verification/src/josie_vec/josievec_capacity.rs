//! Capacity arithmetic: the growth curve that capacities move along.

use vstd::prelude::*;

verus! {

/// The capacity that amortized growth moves to from `cap`: one slot for an
/// empty buffer, twice the current capacity otherwise.
pub open spec fn grown_capacity(cap: nat) -> nat {
    if cap == 0 {
        1
    } else {
        2 * cap
    }
}

/// The first capacity on the doubling curve from `cap` that holds `needed`
/// slots.
pub open spec fn doubled_until(cap: nat, needed: nat) -> nat
    decreases (if cap < needed { needed - cap } else { 0 }),
{
    if cap >= needed {
        cap
    } else {
        doubled_until(grown_capacity(cap), needed)
    }
}

/// Whether the doubling curve from `cap` reaches `needed` within `usize`. It
/// does whenever twice `needed` is within `usize`, which is the first
/// alternative; the second says it outright.
pub open spec fn reserve_fits(cap: nat, needed: nat) -> bool {
    2 * needed <= usize::MAX || doubled_until(cap, needed) <= usize::MAX
}

/// The capacity a `push` leaves behind, given the length and capacity it found.
pub open spec fn capacity_after_push(len: nat, cap: nat) -> nat {
    if len == cap {
        grown_capacity(cap)
    } else {
        cap
    }
}

/// The capacity after `n` pushes into a container that started empty with no
/// buffer.
pub open spec fn capacity_after_pushes(n: nat) -> nat
    decreases n,
{
    if n == 0 {
        0
    } else {
        capacity_after_push((n - 1) as nat, capacity_after_pushes((n - 1) as nat))
    }
}

/// Whether `cap` is a power of two.
pub open spec fn is_power_of_two(cap: nat) -> bool
    decreases cap,
{
    cap == 1 || (cap > 1 && cap % 2 == 0 && is_power_of_two(cap / 2))
}

/// The doubling curve never falls under where it started nor under what is
/// needed, and it overshoots by less than a factor of two.
pub proof fn lemma_doubled_until_bounds(cap: nat, needed: nat)
    ensures
        doubled_until(cap, needed) >= cap,
        doubled_until(cap, needed) >= needed,
        cap < needed ==> doubled_until(cap, needed) < 2 * needed,
        cap >= needed ==> doubled_until(cap, needed) == cap,
    decreases (if cap < needed { needed - cap } else { 0 }),
{
    if cap < needed {
        lemma_doubled_until_bounds(grown_capacity(cap), needed);
    }
}

/// The first alternative of `reserve_fits` gives the second.
pub proof fn lemma_reserve_fits(cap: nat, needed: nat)
    requires
        cap <= usize::MAX,
        reserve_fits(cap, needed),
    ensures
        needed <= doubled_until(cap, needed) <= usize::MAX,
{
    lemma_doubled_until_bounds(cap, needed);
}

/// Doubling from a power of two (or from nothing) stays on powers of two.
pub proof fn lemma_doubled_until_power_of_two(cap: nat, needed: nat)
    requires
        cap == 0 || is_power_of_two(cap),
        needed > 0,
    ensures
        is_power_of_two(doubled_until(cap, needed)) || (doubled_until(cap, needed) == cap && cap
            == 0),
    decreases (if cap < needed { needed - cap } else { 0 }),
{
    if cap < needed {
        let next = grown_capacity(cap);
        assert(is_power_of_two(next)) by {
            if cap != 0 {
                assert(next / 2 == cap);
            }
        }
        lemma_doubled_until_power_of_two(next, needed);
        lemma_doubled_until_bounds(next, needed);
    }
}

/// Reserving for more continues the curve from where reserving for less ended.
pub proof fn lemma_doubled_until_extend(cap: nat, less: nat, more: nat)
    requires
        less <= more,
    ensures
        doubled_until(cap, more) == doubled_until(doubled_until(cap, less), more),
    decreases (if cap < less { less - cap } else { 0 }),
{
    if cap < less {
        lemma_doubled_until_extend(grown_capacity(cap), less, more);
    }
}

/// After `n` pushes from empty the capacity is the first power of two on the
/// doubling curve from zero that holds `n`.
pub proof fn lemma_capacity_after_pushes(n: nat)
    ensures
        capacity_after_pushes(n) == doubled_until(0, n),
        capacity_after_pushes(n) >= n,
        n > 0 ==> is_power_of_two(capacity_after_pushes(n)),
        n > 0 ==> capacity_after_pushes(n) < 2 * n,
    decreases n,
{
    if n > 0 {
        let m = (n - 1) as nat;
        lemma_capacity_after_pushes(m);
        lemma_doubled_until_bounds(0, n);
        lemma_doubled_until_power_of_two(0, n);
        let c = capacity_after_pushes(m);
        if m == c {
            lemma_doubled_until_bounds(0, m);
            lemma_doubled_until_extend(0, m, n);
            assert(doubled_until(c, n) == doubled_until(grown_capacity(c), n));
            lemma_doubled_until_bounds(grown_capacity(c), n);
        } else {
            lemma_doubled_until_extend(0, m, n);
            lemma_doubled_until_bounds(c, n);
        }
    }
}

} // verus!
