//! Counters per address and per country.

use dashmap::DashMap;
use vstd::prelude::*;

use crate::clock::Timestamp;
use crate::ip::Key;

verus! {

/// The concurrent map of the `dashmap` crate.
#[verifier::external_type_specification]
#[verifier::external_body]
#[verifier::reject_recursive_types(K)]
#[verifier::reject_recursive_types(V)]
#[verifier::reject_recursive_types(S)]
pub struct ExDashMap<K, V, S>(dashmap::DashMap<K, V, S>);

/// What is counted of one address.
#[derive(Clone, Copy, Debug, PartialEq, Eq, Structural)]
pub struct PerIpMetrics {
    /// How many events it caused.
    pub hits: u64,
    /// When it caused the last one.
    pub last_seen: Timestamp,
}

/// Counters per address.
pub type IpMap = DashMap<Key, PerIpMetrics>;

/// Counters per country.
pub type CountryMap = DashMap<String, u64>;

/// What a map of address counters holds.
pub uninterp spec fn ip_counts(m: DashMap<Key, PerIpMetrics>) -> Map<Key, PerIpMetrics>;

/// What a map of country counters holds.
pub uninterp spec fn country_counts(m: DashMap<String, u64>) -> Map<Seq<char>, u64>;

/// Wraps `DashMap::new`: an empty map.
#[verifier::external_body]
pub(crate) fn new_ip_map() -> (m: IpMap)
    ensures
        (ip_counts(m) == Map::<Key, PerIpMetrics>::empty()),
{
    DashMap::new()
}

/// Wraps `DashMap::get`: the value of a key, if it has one.
#[verifier::external_body]
fn ip_get(m: &IpMap, k: Key) -> (found: Option<PerIpMetrics>)
    ensures
        found == if ip_counts(*m).contains_key(k) {
            Some(ip_counts(*m)[k])
        } else {
            None
        },
{
    m.get(&k).map(|entry| *entry.value())
}

/// Wraps `DashMap::insert`: gives a key a value.
#[verifier::external_body]
fn ip_insert(m: &mut IpMap, k: Key, v: PerIpMetrics)
    ensures
        ip_counts(*final(m)) == ip_counts(*old(m)).insert(k, v),
{
    m.insert(k, v);
}

/// Wraps `DashMap::new`: an empty map.
#[verifier::external_body]
pub(crate) fn new_country_map() -> (m: CountryMap)
    ensures
        (country_counts(m) == Map::<Seq<char>, u64>::empty()),
{
    DashMap::new()
}

/// Wraps `DashMap::get`: the value of a key, if it has one.
#[verifier::external_body]
fn country_get(m: &CountryMap, k: &str) -> (found: Option<u64>)
    ensures
        found == if country_counts(*m).contains_key(k@) {
            Some(country_counts(*m)[k@])
        } else {
            None
        },
{
    m.get(k).map(|entry| *entry.value())
}

/// Wraps `DashMap::insert`: gives a key a value.
#[verifier::external_body]
fn country_insert(m: &mut CountryMap, k: String, v: u64)
    ensures
        country_counts(*final(m)) == country_counts(*old(m)).insert(k@, v),
{
    m.insert(k, v);
}

/// Whether a list holds exactly the entries of a map, in some order.
pub open spec fn lists_map(list: Seq<(String, u64)>, m: Map<Seq<char>, u64>) -> bool {
    &&& forall|i: int|
        0 <= i < list.len() ==> m.contains_key((#[trigger] list[i]).0@) && m[list[i].0@]
            == list[i].1
    &&& forall|i: int, j: int|
        0 <= i < j < list.len() ==> (#[trigger] list[i]).0@ != (#[trigger] list[j]).0@
    &&& forall|k: Seq<char>| #[trigger]
        m.contains_key(k) ==> exists|i: int| 0 <= i < list.len() && (#[trigger] list[i]).0@ == k
}

/// Wraps `DashMap::iter`: every entry once, in no particular order.
#[verifier::external_body]
pub(crate) fn country_list(m: &CountryMap) -> (list: Vec<(String, u64)>)
    ensures
        lists_map(list@, country_counts(*m)),
{
    m.iter().map(|entry| (entry.key().clone(), *entry.value())).collect()
}

/// The counters of an address, all zero where it was never seen.
pub open spec fn hits_of(m: Map<Key, PerIpMetrics>, k: Key) -> u64 {
    if m.contains_key(k) {
        m[k].hits
    } else {
        0
    }
}

/// Counts one more event of an address, and tells how many there are now.
pub(crate) fn count_ip(m: &mut IpMap, k: Key, seen: Timestamp) -> (hits: u64)
    requires
        hits_of(ip_counts(*old(m)), k) < u64::MAX,
    ensures
        hits == hits_of(ip_counts(*old(m)), k) + 1,
        ip_counts(*final(m)) == ip_counts(*old(m)).insert(
            k,
            PerIpMetrics { hits, last_seen: seen },
        ),
{
    let before: u64 = match ip_get(m, k) {
        Some(metrics) => metrics.hits,
        None => 0,
    };
    let hits: u64 = before + 1;
    ip_insert(m, k, PerIpMetrics { hits, last_seen: seen });
    hits
}

/// The counter of a country, zero where it was never seen.
pub open spec fn country_hits(m: Map<Seq<char>, u64>, k: Seq<char>) -> u64 {
    if m.contains_key(k) {
        m[k]
    } else {
        0
    }
}

/// Counts one more event of a country.
pub(crate) fn count_country(m: &mut CountryMap, k: String)
    requires
        country_hits(country_counts(*old(m)), k@) < u64::MAX,
    ensures
        country_counts(*final(m)) == country_counts(*old(m)).insert(
            k@,
            (country_hits(country_counts(*old(m)), k@) + 1) as u64,
        ),
{
    let before: u64 = match country_get(m, k.as_str()) {
        Some(n) => n,
        None => 0,
    };
    country_insert(m, k, before + 1);
}

} // verus!
