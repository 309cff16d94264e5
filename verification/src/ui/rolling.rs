//! Sequences that forget their oldest items, and the throughput ring.

use std::collections::VecDeque;

use vstd::prelude::*;

verus! {

/// How many bins the throughput ring has.
pub const RING_BINS: usize = 120;

/// The last `n` items, or all where there are no more.
pub open spec fn keep_last<A>(s: Seq<A>, n: int) -> Seq<A> {
    if s.len() > n {
        s.skip(s.len() - n)
    } else {
        s
    }
}

/// `s` with `x` behind it; the first item makes room where there are `cap` or
/// more.
pub open spec fn rolled<A>(s: Seq<A>, x: A, cap: int) -> Seq<A> {
    if s.len() >= cap && s.len() > 0 {
        s.skip(1).push(x)
    } else {
        s.push(x)
    }
}

/// The sum of all items.
pub open spec fn sum(s: Seq<u64>) -> nat
    decreases s.len(),
{
    if s.len() == 0 {
        0
    } else {
        sum(s.drop_last()) + s.last() as nat
    }
}

/// No item is more than the sum.
pub proof fn item_at_most_sum(s: Seq<u64>, i: int)
    requires
        0 <= i < s.len(),
    ensures
        s[i] <= sum(s),
    decreases s.len(),
{
    if i < s.len() - 1 {
        item_at_most_sum(s.drop_last(), i);
        assert(s.drop_last()[i] == s[i]);
    }
}

proof fn sum_without_first(s: Seq<u64>)
    requires
        s.len() > 0,
    ensures
        sum(s) == s[0] + sum(s.skip(1)),
    decreases s.len(),
{
    if s.len() > 1 {
        sum_without_first(s.drop_last());
        assert(s.drop_last().skip(1) =~= s.skip(1).drop_last());
        assert(s.drop_last()[0] == s[0]);
        assert(s.skip(1).last() == s.last());
    } else {
        assert(s.drop_last() =~= Seq::empty());
        assert(s.skip(1) =~= Seq::empty());
    }
}

/// `n` empty bins.
pub open spec fn empty_bins(n: nat) -> Seq<u64> {
    Seq::new(n, |i: int| 0u64)
}

/// The ring after `n` more bins were begun.
pub open spec fn advanced(ring: Seq<u64>, n: nat) -> Seq<u64> {
    keep_last(ring + empty_bins(n), RING_BINS as int)
}

proof fn one_more_bin(ring: Seq<u64>, n: nat)
    requires
        ring.len() <= RING_BINS,
    ensures
        advanced(ring, n + 1) == rolled(advanced(ring, n), 0u64, RING_BINS as int),
        advanced(ring, n).len() <= RING_BINS,
{
    assert(ring + empty_bins(n + 1) =~= (ring + empty_bins(n)).push(0u64));
    assert(advanced(ring, n + 1) =~= rolled(advanced(ring, n), 0u64, RING_BINS as int));
}

/// More bins never add events: old ones may be forgotten.
pub proof fn advancing_adds_nothing(ring: Seq<u64>, n: nat)
    requires
        ring.len() <= RING_BINS,
    ensures
        sum(advanced(ring, n)) <= sum(ring),
    decreases n,
{
    if n == 0 {
        assert(advanced(ring, 0) =~= ring);
    } else {
        let m = (n - 1) as nat;
        advancing_adds_nothing(ring, m);
        one_more_bin(ring, m);
        let a = advanced(ring, m);
        let b = rolled(a, 0u64, RING_BINS as int);
        assert(b.drop_last() =~= if a.len() >= RING_BINS && a.len() > 0 {
            a.skip(1)
        } else {
            a
        });
        if a.len() > 0 {
            sum_without_first(a);
        }
    }
}

/// Beyond a full ring, more bins make no difference.
proof fn full_turn(ring: Seq<u64>, n: nat)
    requires
        ring.len() <= RING_BINS,
        n >= RING_BINS,
    ensures
        advanced(ring, n) == advanced(ring, RING_BINS as nat),
{
    assert(advanced(ring, n) =~= empty_bins(RING_BINS as nat));
    assert(advanced(ring, RING_BINS as nat) =~= empty_bins(RING_BINS as nat));
}

/// Begins one more bin.
pub fn begin_bin(ring: &mut VecDeque<u64>)
    requires
        old(ring)@.len() <= RING_BINS,
    ensures
        final(ring)@ == advanced(old(ring)@, 1),
        final(ring)@.len() <= RING_BINS,
        sum(final(ring)@) <= sum(old(ring)@),
{
    proof {
        assert(advanced(ring@, 0) =~= ring@);
        one_more_bin(ring@, 0);
        one_more_bin(ring@, 1);
        advancing_adds_nothing(ring@, 1);
    }
    if ring.len() >= RING_BINS {
        ring.pop_front();
        assert(ring@ =~= old(ring)@.skip(1));
    }
    ring.push_back(0);
}

/// Begins `n` more bins.
pub fn begin_bins(ring: &mut VecDeque<u64>, n: u64)
    requires
        old(ring)@.len() <= RING_BINS,
    ensures
        final(ring)@ == advanced(old(ring)@, n as nat),
        final(ring)@.len() <= RING_BINS,
        sum(final(ring)@) <= sum(old(ring)@),
{
    let ghost before = ring@;
    let turns: u64 = if n > RING_BINS as u64 {
        RING_BINS as u64
    } else {
        n
    };
    proof {
        if n > RING_BINS {
            full_turn(before, n as nat);
        }
        assert(advanced(before, 0) =~= before);
        advancing_adds_nothing(before, n as nat);
    }
    let mut i: u64 = 0;
    while i < turns
        invariant
            i <= turns,
            before.len() <= RING_BINS,
            ring@.len() <= RING_BINS,
            ring@ == advanced(before, i as nat),
        decreases turns - i,
    {
        proof {
            one_more_bin(before, i as nat);
            one_more_bin(before, (i + 1) as nat);
            assert(advanced(ring@, 0) =~= ring@);
            one_more_bin(ring@, 0);
        }
        begin_bin(ring);
        i = i + 1;
    }
}

/// Counts one event in the last bin, if there is one.
pub open spec fn counted(ring: Seq<u64>) -> Seq<u64> {
    if ring.len() > 0 {
        ring.drop_last().push((ring.last() + 1) as u64)
    } else {
        ring
    }
}

/// Counts one event in the last bin, if there is one.
pub fn count_in_ring(ring: &mut VecDeque<u64>)
    requires
        sum(old(ring)@) < u64::MAX,
    ensures
        final(ring)@ == counted(old(ring)@),
        final(ring)@.len() == old(ring)@.len(),
        sum(final(ring)@) <= sum(old(ring)@) + 1,
{
    let ghost before = ring@;
    match ring.pop_back() {
        Some(tail) => {
            proof {
                item_at_most_sum(before, before.len() - 1);
                assert(ring@ =~= before.drop_last());
                assert(counted(before).drop_last() =~= before.drop_last());
            }
            ring.push_back(tail + 1);
        },
        None => {
            assert(ring@ =~= before);
        },
    }
}

/// Adds up the bins.
pub fn ring_total(ring: &VecDeque<u64>) -> (total: u64)
    requires
        sum(ring@) <= u64::MAX,
    ensures
        total == sum(ring@),
{
    let mut total: u64 = 0;
    let mut i: usize = 0;
    proof {
        assert(ring@.take(0) =~= Seq::empty());
    }
    while i < ring.len()
        invariant
            i <= ring@.len(),
            total == sum(ring@.take(i as int)),
            sum(ring@) <= u64::MAX,
        decreases ring@.len() - i,
    {
        proof {
            assert(ring@.take(i + 1).drop_last() =~= ring@.take(i as int));
            sum_of_part(ring@, i + 1);
        }
        total = total + ring[i];
        i = i + 1;
    }
    assert(ring@.take(ring@.len() as int) =~= ring@);
    total
}

proof fn sum_of_part(s: Seq<u64>, n: int)
    requires
        0 <= n <= s.len(),
    ensures
        sum(s.take(n)) <= sum(s),
    decreases s.len(),
{
    if n < s.len() {
        assert(s.drop_last().take(n) =~= s.take(n));
        sum_of_part(s.drop_last(), n);
    } else {
        assert(s.take(n) =~= s);
    }
}

/// Puts `x` behind the items; the first one makes room where there are `cap`
/// or more.
pub fn roll<A>(s: &mut VecDeque<A>, x: A, cap: usize)
    ensures
        final(s)@ == rolled(old(s)@, x, cap as int),
{
    if s.len() >= cap {
        s.pop_front();
    }
    s.push_back(x);
    assert(s@ =~= rolled(old(s)@, x, cap as int));
}

/// Forgets the first items until there are at most `n`.
pub fn trim_to<A>(s: &mut VecDeque<A>, n: usize)
    ensures
        final(s)@ == keep_last(old(s)@, n as int),
{
    let ghost before = s@;
    while s.len() > n
        invariant
            s@.len() >= n || s@ == before,
            s@ == before.skip(before.len() - s@.len()),
            s@.len() <= before.len(),
        decreases s@.len(),
    {
        s.pop_front();
        assert(s@ =~= before.skip(before.len() - s@.len()));
    }
    assert(s@ =~= keep_last(before, n as int));
}

/// A sum grows by what is added behind it, and nothing adds up to zero.
pub proof fn sums_grow_by_what_is_added(s: Seq<u64>, x: u64)
    ensures
        sum(Seq::<u64>::empty()) == 0,
        sum(s.push(x)) == sum(s) + x,
{
    assert(s.push(x).drop_last() =~= s);
}

/// The sum of one list behind another is the sum of both.
pub proof fn sums_of_two_lists(s: Seq<u64>, t: Seq<u64>)
    ensures
        sum(s + t) == sum(s) + sum(t),
    decreases t.len(),
{
    if t.len() > 0 {
        sums_of_two_lists(s, t.drop_last());
        assert((s + t).drop_last() =~= s + t.drop_last());
    } else {
        assert(s + t =~= s);
    }
}

/// What is kept of a list are its newest items, in their order, and all of them
/// where there is room.
pub proof fn the_newest_are_kept<A>(s: Seq<A>, n: int, i: int)
    requires
        0 <= n,
    ensures
        s.len() <= n ==> keep_last(s, n) == s,
        s.len() > n ==> keep_last(s, n).len() == n,
        0 <= i < n && i < s.len() ==> keep_last(s, n)[keep_last(s, n).len() - 1 - i] == s[s.len() - 1
            - i],
{
}

/// What is put behind a list stands at its end; the item before it was the last
/// one. Nothing is lost but the first item, and that only where there is no
/// room.
pub proof fn the_oldest_makes_room<A>(s: Seq<A>, x: A, cap: int, i: int)
    ensures
        ({
            let r = rolled(s, x, cap);
            &&& r.len() > 0 && r[r.len() - 1] == x
            &&& s.len() < cap ==> r.len() == s.len() + 1
            &&& s.len() > 0 && s.len() >= cap ==> r.len() == s.len()
            &&& 1 <= i < r.len() ==> r[r.len() - 1 - i] == s[s.len() - i]
        }),
{
}

/// A ring that is advanced has as many new empty bins at its end, in front of
/// them the bins that it had, and never more than 120.
pub proof fn advancing_begins_empty_bins(ring: Seq<u64>, n: nat, i: int)
    requires
        ring.len() <= 120,
    ensures
        ({
            let r = advanced(ring, n);
            &&& ring.len() + n <= 120 ==> r.len() == ring.len() + n
            &&& ring.len() + n > 120 ==> r.len() == 120
            &&& 0 <= i < n && i < r.len() ==> r[r.len() - 1 - i] == 0
            &&& n <= i < r.len() ==> r[r.len() - 1 - i] == ring[ring.len() - 1 - i + n]
        }),
{
}

/// An event is counted once, in the newest bin; the other bins stay.
pub proof fn events_are_counted_in_the_newest_bin(ring: Seq<u64>, i: int)
    requires
        sum(ring) < u64::MAX,
        ring.len() > 0,
    ensures
        counted(ring).len() == ring.len(),
        counted(ring)[ring.len() - 1] == ring[ring.len() - 1] + 1,
        0 <= i < ring.len() - 1 ==> counted(ring)[i] == ring[i],
        sum(counted(ring)) == sum(ring) + 1,
{
    item_at_most_sum(ring, ring.len() - 1);
    assert(counted(ring).drop_last() =~= ring.drop_last());
}

} // verus!
