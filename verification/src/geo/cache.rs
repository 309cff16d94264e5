//! A bounded cache of geolocations that forgets what was used least recently.

use lru::LruCache;
use vstd::prelude::*;

use crate::geo::lookup;
use crate::geo::lookup::{GeoInfo, GeoView, LocationRecord, ProxyRecord};
use crate::ip;
use crate::ip::{IpAddr, Key};

verus! {

/// The hash builder of the cache.
#[verifier::external_type_specification]
#[verifier::external_body]
pub struct ExDefaultHasher(lru::DefaultHasher);

/// The least-recently-used cache of the `lru` crate.
#[verifier::external_type_specification]
#[verifier::external_body]
#[verifier::reject_recursive_types(K)]
#[verifier::reject_recursive_types(V)]
#[verifier::reject_recursive_types(S)]
pub struct ExLruCache<K, V, S>(lru::LruCache<K, V, S>);

/// What a cache holds, most recently used first.
pub uninterp spec fn entries(cache: LruCache<Key, Option<GeoInfo>>) -> Seq<
    (Key, Option<GeoView>),
>;

/// How many entries a cache can hold.
pub uninterp spec fn capacity(cache: LruCache<Key, Option<GeoInfo>>) -> nat;

/// The entries but for those of key `k`.
pub open spec fn without(s: Seq<(Key, Option<GeoView>)>, k: Key) -> Seq<(Key, Option<GeoView>)> {
    s.filter(|e: (Key, Option<GeoView>)| e.0 != k)
}

/// Whether there is an entry for key `k`.
pub open spec fn holds(s: Seq<(Key, Option<GeoView>)>, k: Key) -> bool {
    exists|i: int| 0 <= i < s.len() && (#[trigger] s[i]).0 == k
}

/// The value of key `k`.
pub open spec fn value_of(s: Seq<(Key, Option<GeoView>)>, k: Key) -> Option<GeoView> {
    s[choose|i: int| 0 <= i < s.len() && (#[trigger] s[i]).0 == k].1
}

/// Wraps `LruCache::new`: an empty cache of the given capacity.
#[verifier::external_body]
fn new_cache(cap: usize) -> (cache: LruCache<Key, Option<GeoInfo>>)
    requires
        cap > 0,
    ensures
        entries(cache) == Seq::<(Key, Option<GeoView>)>::empty(),
        capacity(cache) == cap,
{
    LruCache::new(core::num::NonZeroUsize::new(cap).unwrap())
}

/// Wraps `LruCache::get`: the value of the key, which becomes the most
/// recently used one.
#[verifier::external_body]
fn cache_get<'a>(cache: &'a mut LruCache<Key, Option<GeoInfo>>, k: Key) -> (hit: Option<
    &'a Option<GeoInfo>,
>)
    ensures
        capacity(*final(cache)) == capacity(*old(cache)),
        hit is Some <==> holds(entries(*old(cache)), k),
        hit matches Some(v) ==> lookup::info_view(*v) == value_of(entries(*old(cache)), k)
            && entries(*final(cache)) == seq![(k, value_of(entries(*old(cache)), k))] + without(
            entries(*old(cache)),
            k,
        ),
        hit is None ==> entries(*final(cache)) == entries(*old(cache)),
{
    cache.get(&k)
}

/// What a cache of capacity `cap` holds after key `k` was given the value `v`:
/// that entry first, then the others, without the least recently used one
/// where there is no room.
pub open spec fn with_entry(
    s: Seq<(Key, Option<GeoView>)>,
    cap: nat,
    k: Key,
    v: Option<GeoView>,
) -> Seq<(Key, Option<GeoView>)> {
    let rest = without(s, k);
    seq![(k, v)] + if rest.len() < cap {
        rest
    } else {
        rest.take(cap - 1)
    }
}

/// Wraps `LruCache::put`: gives the key a value and makes it the most recently
/// used one; a full cache loses its least recently used entry.
#[verifier::external_body]
fn cache_put(cache: &mut LruCache<Key, Option<GeoInfo>>, k: Key, v: Option<GeoInfo>)
    requires
        entries(*old(cache)).len() <= capacity(*old(cache)),
    ensures
        capacity(*final(cache)) == capacity(*old(cache)),
        entries(*final(cache)) == with_entry(
            entries(*old(cache)),
            capacity(*old(cache)),
            k,
            lookup::info_view(v),
        ),
{
    cache.put(k, v);
}

/// How many addresses are remembered.
pub const CACHE_CAPACITY: usize = 20_000;

/// Whether no key has two entries.
pub open spec fn keys_distinct(s: Seq<(Key, Option<GeoView>)>) -> bool {
    forall|i: int, j: int| 0 <= i < j < s.len() ==> (#[trigger] s[i]).0 != (#[trigger] s[j]).0
}

/// Answers to geolocation queries, with a cache of the most recent ones.
pub struct GeoLookup {
    cache: LruCache<Key, Option<GeoInfo>>,
}

impl GeoLookup {
    /// The remembered answers, most recently used first.
    pub closed spec fn remembered(&self) -> Seq<(Key, Option<GeoView>)> {
        entries(self.cache)
    }

    /// The remembered answers are a bounded map.
    pub closed spec fn well_formed(&self) -> bool {
        &&& capacity(self.cache) == CACHE_CAPACITY
        &&& entries(self.cache).len() <= CACHE_CAPACITY
        &&& keys_distinct(entries(self.cache))
    }

    /// What [`GeoLookup::well_formed`] says of the remembered answers.
    pub proof fn remembers_a_bounded_map(&self)
        requires
            self.well_formed(),
        ensures
            self.remembered().len() <= CACHE_CAPACITY,
            keys_distinct(self.remembered()),
    {
    }

    /// Starts with nothing remembered.
    pub fn new() -> (geo: GeoLookup)
        ensures
            geo.well_formed(),
            geo.remembered() == Seq::<(Key, Option<GeoView>)>::empty(),
    {
        GeoLookup { cache: new_cache(CACHE_CAPACITY) }
    }

    /// The remembered answer for an address, if there is one; it becomes the
    /// most recently used.
    pub fn cached(&mut self, ip: IpAddr) -> (hit: Option<Option<GeoInfo>>)
        requires
            old(self).well_formed(),
        ensures
            final(self).well_formed(),
            final(self).remembered() == touched(old(self).remembered(), ip::key_of(ip)),
            match hit {
                Some(info) => holds(old(self).remembered(), ip::key_of(ip)) && lookup::info_view(info)
                    == value_of(old(self).remembered(), ip::key_of(ip)),
                None => !holds(old(self).remembered(), ip::key_of(ip)),
            },
    {
        let ghost before = entries(self.cache);
        proof {
            touching_keeps_a_map(before, ip::key_of(ip));
        }
        match cache_get(&mut self.cache, ip.key()) {
            Some(info) => Some(lookup::copy_info(info)),
            None => None,
        }
    }

    /// Puts together the answer for an address from what the databases hold of
    /// it, and remembers it.
    pub fn resolve(
        &mut self,
        ip: IpAddr,
        location: Option<LocationRecord>,
        proxy: Option<ProxyRecord>,
    ) -> (info: Option<GeoInfo>)
        requires
            old(self).well_formed(),
        ensures
            final(self).well_formed(),
            lookup::info_view(info) == lookup::assembled(ip, location, proxy),
            final(self).remembered() == with_entry(
                old(self).remembered(),
                CACHE_CAPACITY as nat,
                ip::key_of(ip),
                lookup::info_view(info),
            ),
    {
        let info: Option<GeoInfo> = lookup::lookup_uncached(ip, location, proxy);
        proof {
            entering_keeps_a_map(
                entries(self.cache),
                CACHE_CAPACITY as nat,
                ip::key_of(ip),
                lookup::info_view(info),
            );
        }
        cache_put(&mut self.cache, ip.key(), lookup::copy_info(&info));
        info
    }

    /// The answer for an address: the remembered one, if there is one, and
    /// else the one put together from what the databases hold, which is then
    /// remembered.
    pub fn lookup(
        &mut self,
        ip: IpAddr,
        location: Option<LocationRecord>,
        proxy: Option<ProxyRecord>,
    ) -> (info: Option<GeoInfo>)
        requires
            old(self).well_formed(),
        ensures
            final(self).well_formed(),
            lookup::info_view(info) == answered(
                old(self).remembered(),
                ip::key_of(ip),
                lookup::assembled(ip, location, proxy),
            ),
            final(self).remembered() == looked_up(
                old(self).remembered(),
                CACHE_CAPACITY as nat,
                ip::key_of(ip),
                lookup::assembled(ip, location, proxy),
            ),
    {
        match self.cached(ip) {
            Some(hit) => hit,
            None => self.resolve(ip, location, proxy),
        }
    }
}

/// The entries after key `k` was asked for.
pub open spec fn touched(s: Seq<(Key, Option<GeoView>)>, k: Key) -> Seq<(Key, Option<GeoView>)> {
    if holds(s, k) {
        seq![(k, value_of(s, k))] + without(s, k)
    } else {
        s
    }
}

/// The answer to a query for key `k`: the remembered one, if there is one, and
/// else `fresh`, which the databases give now.
pub open spec fn answered(
    s: Seq<(Key, Option<GeoView>)>,
    k: Key,
    fresh: Option<GeoView>,
) -> Option<GeoView> {
    if holds(s, k) {
        value_of(s, k)
    } else {
        fresh
    }
}

/// The entries of a cache of capacity `cap` after a query for key `k`, to which
/// the databases would answer `fresh`.
pub open spec fn looked_up(
    s: Seq<(Key, Option<GeoView>)>,
    cap: nat,
    k: Key,
    fresh: Option<GeoView>,
) -> Seq<(Key, Option<GeoView>)> {
    if holds(s, k) {
        touched(s, k)
    } else {
        with_entry(s, cap, k, fresh)
    }
}

/// The entries after a run of queries, each with what the databases would
/// answer to it at its time.
pub open spec fn after_queries(
    s: Seq<(Key, Option<GeoView>)>,
    cap: nat,
    queries: Seq<(Key, Option<GeoView>)>,
) -> Seq<(Key, Option<GeoView>)>
    decreases queries.len(),
{
    if queries.len() == 0 {
        s
    } else {
        after_queries(
            looked_up(s, cap, queries[0].0, queries[0].1),
            cap,
            queries.skip(1),
        )
    }
}

/// Leaving out a key leaves exactly the entries of other keys.
proof fn without_members(s: Seq<(Key, Option<GeoView>)>, k: Key)
    ensures
        forall|i: int|
            0 <= i < without(s, k).len() ==> (#[trigger] without(s, k)[i]).0 != k && s.contains(
                without(s, k)[i],
            ),
        forall|j: int| 0 <= j < s.len() && s[j].0 != k ==> without(s, k).contains(#[trigger] s[j]),
        without(s, k).len() <= s.len(),
    decreases s.len(),
{
    reveal(Seq::filter);
    if s.len() > 0 {
        let init = s.drop_last();
        let w0 = without(init, k);
        let w = without(s, k);
        without_members(init, k);
        assert(w == if s.last().0 != k {
            w0.push(s.last())
        } else {
            w0
        });
        assert forall|i: int| 0 <= i < w.len() implies (#[trigger] w[i]).0 != k && s.contains(
            w[i],
        ) by {
            if i < w0.len() {
                assert(init.contains(w0[i]));
                let j = choose|j: int| 0 <= j < init.len() && init[j] == w0[i];
                assert(s[j] == w[i]);
            } else {
                assert(s[s.len() - 1] == w[i]);
            }
        }
        assert forall|j: int| 0 <= j < s.len() && s[j].0 != k implies w.contains(
            #[trigger] s[j],
        ) by {
            if j < init.len() {
                assert(w0.contains(init[j]));
                let i = choose|i: int| 0 <= i < w0.len() && w0[i] == init[j];
                assert(w[i] == s[j]);
            } else {
                assert(w[w.len() - 1] == s[j]);
            }
        }
    }
}

/// Leaving out a key of a map leaves a map, with one entry fewer if it held
/// the key.
proof fn without_keeps_a_map(s: Seq<(Key, Option<GeoView>)>, k: Key)
    requires
        keys_distinct(s),
    ensures
        keys_distinct(without(s, k)),
        holds(s, k) ==> without(s, k).len() + 1 == s.len(),
        !holds(s, k) ==> without(s, k) == s,
    decreases s.len(),
{
    reveal(Seq::filter);
    if s.len() > 0 {
        let init = s.drop_last();
        let w0 = without(init, k);
        let w = without(s, k);
        without_keeps_a_map(init, k);
        without_members(init, k);
        assert(w == if s.last().0 != k {
            w0.push(s.last())
        } else {
            w0
        });
        assert forall|i: int, j: int| 0 <= i < j < w.len() implies (#[trigger] w[i]).0 != (
        #[trigger] w[j]).0 by {
            if j == w0.len() {
                assert(init.contains(w0[i]));
                let x = choose|x: int| 0 <= x < init.len() && init[x] == w0[i];
                assert(s[x].0 != s[s.len() - 1].0);
            }
        }
        if s.last().0 == k {
            assert(s[s.len() - 1].0 == k);
            assert(!holds(init, k)) by {
                if holds(init, k) {
                    let x = choose|x: int| 0 <= x < init.len() && (#[trigger] init[x]).0 == k;
                    assert(s[x].0 != s[s.len() - 1].0);
                }
            }
        } else {
            assert(holds(s, k) ==> holds(init, k)) by {
                if holds(s, k) {
                    let x = choose|x: int| 0 <= x < s.len() && (#[trigger] s[x]).0 == k;
                    assert(init[x].0 == k);
                }
            }
            assert(holds(init, k) ==> holds(s, k)) by {
                if holds(init, k) {
                    let x = choose|x: int| 0 <= x < init.len() && (#[trigger] init[x]).0 == k;
                    assert(s[x].0 == k);
                }
            }
            if !holds(s, k) {
                assert(init.push(s.last()) =~= s);
            }
        }
    } else {
        assert(without(s, k) =~= s);
    }
}

proof fn prefixed_map(s: Seq<(Key, Option<GeoView>)>, k: Key, v: Option<GeoView>, n: int)
    requires
        keys_distinct(s),
        0 <= n <= without(s, k).len(),
    ensures
        keys_distinct(seq![(k, v)] + without(s, k).take(n)),
{
    without_keeps_a_map(s, k);
    without_members(s, k);
    let w = without(s, k);
    let t = seq![(k, v)] + w.take(n);
    assert forall|i: int, j: int| 0 <= i < j < t.len() implies (#[trigger] t[i]).0 != (
    #[trigger] t[j]).0 by {
        assert(t[j] == w[j - 1]);
        if i > 0 {
            assert(t[i] == w[i - 1]);
        }
    }
}

/// Asking for an address changes the order of what is remembered, nothing
/// else: the entries stay a map of the same size.
pub proof fn touching_keeps_a_map(s: Seq<(Key, Option<GeoView>)>, k: Key)
    requires
        keys_distinct(s),
    ensures
        keys_distinct(touched(s, k)),
        touched(s, k).len() == s.len(),
{
    without_keeps_a_map(s, k);
    prefixed_map(s, k, value_of(s, k), without(s, k).len() as int);
    assert(without(s, k).take(without(s, k).len() as int) =~= without(s, k));
}

/// An answer that was just remembered is what the cache gives back, whatever
/// it held; the cache stays a map and within its capacity.
pub proof fn entering_keeps_a_map(
    s: Seq<(Key, Option<GeoView>)>,
    cap: nat,
    k: Key,
    v: Option<GeoView>,
)
    requires
        keys_distinct(s),
        s.len() <= cap,
        cap > 0,
    ensures
        keys_distinct(with_entry(s, cap, k, v)),
        with_entry(s, cap, k, v).len() <= cap,
        holds(with_entry(s, cap, k, v), k),
        value_of(with_entry(s, cap, k, v), k) == v,
{
    without_keeps_a_map(s, k);
    without_members(s, k);
    let w = without(s, k);
    let n = if w.len() < cap {
        w.len() as int
    } else {
        cap - 1
    };
    assert(w.take(w.len() as int) =~= w);
    prefixed_map(s, k, v, n);
    let t = with_entry(s, cap, k, v);
    assert(t == seq![(k, v)] + w.take(n));
    assert(t[0].0 == k);
    entry_is_value(t, 0);
}

/// In a map an entry's value is the value of its key.
proof fn entry_is_value(s: Seq<(Key, Option<GeoView>)>, i: int)
    requires
        keys_distinct(s),
        0 <= i < s.len(),
    ensures
        holds(s, s[i].0),
        value_of(s, s[i].0) == s[i].1,
{
    let k = s[i].0;
    let j = choose|j: int| 0 <= j < s.len() && (#[trigger] s[j]).0 == k;
    if j < i {
        assert(s[j].0 != s[i].0);
    } else if i < j {
        assert(s[i].0 != s[j].0);
    }
}

/// While there is room, remembering one address makes the cache forget no
/// other.
pub proof fn room_means_nothing_is_forgotten(
    s: Seq<(Key, Option<GeoView>)>,
    cap: nat,
    k: Key,
    v: Option<GeoView>,
    other: Key,
)
    requires
        keys_distinct(s),
        s.len() < cap,
        other != k,
        holds(s, other),
    ensures
        holds(with_entry(s, cap, k, v), other),
        value_of(with_entry(s, cap, k, v), other) == value_of(s, other),
{
    without_members(s, k);
    entering_keeps_a_map(s, cap, k, v);
    let w = without(s, k);
    let t = with_entry(s, cap, k, v);
    let j = choose|j: int| 0 <= j < s.len() && (#[trigger] s[j]).0 == other;
    entry_is_value(s, j);
    assert(w.contains(s[j]));
    let i = choose|i: int| 0 <= i < w.len() && w[i] == s[j];
    assert(t[i + 1] == s[j]);
    entry_is_value(t, i + 1);
}

/// Whether the entry of key `k`, with value `v`, stands at position `p`, behind
/// entries of `others` only.
spec fn stands_at(
    s: Seq<(Key, Option<GeoView>)>,
    k: Key,
    v: Option<GeoView>,
    others: Set<Key>,
    p: int,
) -> bool {
    &&& 0 <= p < s.len()
    &&& s[p] == (k, v)
    &&& forall|i: int| 0 <= i < p ==> others.contains((#[trigger] s[i]).0)
}

/// As many distinct keys of a set as stand at the front of a map are at most
/// all of the set.
proof fn front_is_bounded(s: Seq<(Key, Option<GeoView>)>, p: int, others: Set<Key>)
    requires
        keys_distinct(s),
        0 <= p <= s.len(),
        others.finite(),
        forall|i: int| 0 <= i < p ==> others.contains((#[trigger] s[i]).0),
    ensures
        p <= others.len(),
    decreases p,
{
    if p > 0 {
        let last = s[p - 1].0;
        assert forall|i: int| 0 <= i < p - 1 implies others.remove(last).contains(
            (#[trigger] s[i]).0,
        ) by {
            assert(s[i].0 != s[p - 1].0);
        }
        front_is_bounded(s, p - 1, others.remove(last));
    }
}

/// Leaving out another key moves an entry forward by at most one, and leaves
/// the same kind of entries before it.
proof fn leaving_out_another(
    s: Seq<(Key, Option<GeoView>)>,
    k: Key,
    v: Option<GeoView>,
    others: Set<Key>,
    p: int,
    q: Key,
) -> (at: int)
    requires
        stands_at(s, k, v, others, p),
        q != k,
    ensures
        stands_at(without(s, q), k, v, others, at),
        at <= p,
    decreases s.len(),
{
    reveal(Seq::filter);
    let init = s.drop_last();
    let w0 = without(init, q);
    let w = without(s, q);
    assert(w == if s.last().0 != q {
        w0.push(s.last())
    } else {
        w0
    });
    if p < init.len() {
        let at = leaving_out_another(init, k, v, others, p, q);
        assert forall|i: int| 0 <= i < at implies others.contains((#[trigger] w[i]).0) by {
            assert(w[i] == w0[i]);
        }
        at
    } else {
        without_members(init, q);
        assert forall|i: int| 0 <= i < w0.len() implies others.contains((#[trigger] w[i]).0) by {
            assert(init.contains(w0[i]));
            let j = choose|j: int| 0 <= j < init.len() && init[j] == w0[i];
            assert(s[j] == w[i]);
        }
        w0.len() as int
    }
}

/// A query moves an entry back, but not out of the cache, while fewer keys
/// than it can hold are asked for besides.
proof fn one_query(
    s: Seq<(Key, Option<GeoView>)>,
    cap: nat,
    k: Key,
    v: Option<GeoView>,
    others: Set<Key>,
    p: int,
    q: Key,
    fresh: Option<GeoView>,
) -> (at: int)
    requires
        keys_distinct(s),
        s.len() <= cap,
        others.finite(),
        others.len() < cap,
        q == k || others.contains(q),
        stands_at(s, k, v, others, p),
    ensures
        keys_distinct(looked_up(s, cap, q, fresh)),
        looked_up(s, cap, q, fresh).len() <= cap,
        stands_at(looked_up(s, cap, q, fresh), k, v, others, at),
{
    let t = looked_up(s, cap, q, fresh);
    entry_is_value(s, p);
    if q == k {
        touching_keeps_a_map(s, k);
        0
    } else {
        let w = without(s, q);
        let at = leaving_out_another(s, k, v, others, p, q);
        if holds(s, q) {
            touching_keeps_a_map(s, q);
            assert(t[at + 1] == w[at]);
            assert forall|i: int| 0 <= i < at + 1 implies others.contains((#[trigger] t[i]).0) by {
                if i > 0 {
                    assert(t[i] == w[i - 1]);
                }
            }
        } else {
            entering_keeps_a_map(s, cap, q, fresh);
            without_keeps_a_map(s, q);
            assert forall|i: int| 0 <= i < p implies others.remove(q).contains(
                (#[trigger] s[i]).0,
            ) by {
                assert(s[i].0 != q);
            }
            front_is_bounded(s, p, others.remove(q));
            assert(at <= p <= cap - 2);
            assert(t[at + 1] == w[at]);
            assert forall|i: int| 0 <= i < at + 1 implies others.contains((#[trigger] t[i]).0) by {
                if i > 0 {
                    assert(t[i] == w[i - 1]);
                }
            }
        }
        at + 1
    }
}

proof fn entry_survives(
    s: Seq<(Key, Option<GeoView>)>,
    cap: nat,
    k: Key,
    v: Option<GeoView>,
    others: Set<Key>,
    p: int,
    queries: Seq<(Key, Option<GeoView>)>,
) -> (at: int)
    requires
        keys_distinct(s),
        s.len() <= cap,
        others.finite(),
        others.len() < cap,
        stands_at(s, k, v, others, p),
        forall|i: int|
            0 <= i < queries.len() ==> (#[trigger] queries[i]).0 == k || others.contains(
                queries[i].0,
            ),
    ensures
        keys_distinct(after_queries(s, cap, queries)),
        stands_at(after_queries(s, cap, queries), k, v, others, at),
    decreases queries.len(),
{
    if queries.len() == 0 {
        p
    } else {
        let next = one_query(s, cap, k, v, others, p, queries[0].0, queries[0].1);
        let rest = queries.skip(1);
        assert forall|i: int| 0 <= i < rest.len() implies (#[trigger] rest[i]).0 == k
            || others.contains(rest[i].0) by {
            assert(rest[i] == queries[i + 1]);
        }
        entry_survives(
            looked_up(s, cap, queries[0].0, queries[0].1),
            cap,
            k,
            v,
            others,
            next,
            rest,
        )
    }
}

/// An answer stays: as long as fewer other addresses than the cache holds were
/// asked for since, a query is answered as it was before, that nothing is
/// known included, whatever the databases would answer now.
pub proof fn answers_stay(
    s: Seq<(Key, Option<GeoView>)>,
    cap: nat,
    k: Key,
    fresh: Option<GeoView>,
    queries: Seq<(Key, Option<GeoView>)>,
    others: Set<Key>,
    later: Option<GeoView>,
)
    requires
        keys_distinct(s),
        s.len() <= cap,
        others.finite(),
        others.len() < cap,
        forall|i: int|
            0 <= i < queries.len() ==> (#[trigger] queries[i]).0 == k || others.contains(
                queries[i].0,
            ),
    ensures
        ({
            let then = after_queries(looked_up(s, cap, k, fresh), cap, queries);
            &&& holds(then, k)
            &&& answered(then, k, later) == answered(s, k, fresh)
        }),
{
    let first = looked_up(s, cap, k, fresh);
    if holds(s, k) {
        touching_keeps_a_map(s, k);
    } else {
        entering_keeps_a_map(s, cap, k, fresh);
    }
    let v = answered(s, k, fresh);
    let at = entry_survives(first, cap, k, v, others, 0, queries);
    entry_is_value(after_queries(first, cap, queries), at);
}

/// An address that is remembered is answered as it was, whatever the databases
/// hold of it now; its entry comes first, and none is forgotten.
pub proof fn remembered_answers_are_given_again(
    s: Seq<(Key, Option<GeoView>)>,
    cap: nat,
    i: int,
    fresh: Option<GeoView>,
)
    requires
        keys_distinct(s),
        0 <= i < s.len(),
    ensures
        answered(s, s[i].0, fresh) == s[i].1,
        looked_up(s, cap, s[i].0, fresh)[0] == s[i],
        looked_up(s, cap, s[i].0, fresh).len() == s.len(),
{
    entry_is_value(s, i);
    touching_keeps_a_map(s, s[i].0);
}

/// An address that is not remembered is answered from the databases, and the
/// answer comes first. The other entries keep their order behind it, but where
/// there is no room the least recently used one is forgotten.
pub proof fn new_answers_come_first(
    s: Seq<(Key, Option<GeoView>)>,
    cap: nat,
    k: Key,
    fresh: Option<GeoView>,
    j: int,
)
    requires
        keys_distinct(s),
        s.len() <= cap,
        cap > 0,
        forall|i: int| 0 <= i < s.len() ==> (#[trigger] s[i]).0 != k,
    ensures
        answered(s, k, fresh) == fresh,
        looked_up(s, cap, k, fresh)[0] == (k, fresh),
        s.len() < cap ==> looked_up(s, cap, k, fresh).len() == s.len() + 1,
        s.len() == cap ==> looked_up(s, cap, k, fresh).len() == cap,
        0 <= j < s.len() && j + 1 < cap ==> looked_up(s, cap, k, fresh)[j + 1] == s[j],
{
    without_keeps_a_map(s, k);
    assert(!holds(s, k));
}

} // verus!
