//! The maps that hold the buckets: concurrent hash maps of the `dashmap`
//! crate, behind contracts that say what each call does to the entries.

use crate::traffic::bucket::RawBucket;
use crate::traffic::limiter::SimpleLimiter;
use dashmap::DashMap;
use vstd::prelude::*;

verus! {

/// What tells the buckets of two client addresses apart.
pub type IpKey = (bool, u128);

#[verifier::external_type_specification]
#[verifier::external_body]
#[verifier::reject_recursive_types(K)]
#[verifier::reject_recursive_types(V)]
#[verifier::reject_recursive_types(S)]
pub struct ExDashMap<K, V, S>(DashMap<K, V, S>);

/// The buckets of the clients, by address.
pub type IpLimiters = DashMap<IpKey, SimpleLimiter>;

/// The buckets of the backends, by key.
pub type NamedLimiters = DashMap<String, SimpleLimiter>;

/// The entries of a `DashMap` of buckets by client address.
pub uninterp spec fn ip_entries(map: DashMap<IpKey, SimpleLimiter>) -> Map<IpKey, RawBucket>;

/// The entries of a `DashMap` of buckets by backend key.
pub uninterp spec fn named_entries(map: DashMap<String, SimpleLimiter>) -> Map<
    Seq<char>,
    RawBucket,
>;

/// `DashMap::new`: a map without entries.
#[verifier::external_body]
pub(crate) fn ip_map_new() -> (made: IpLimiters)
    ensures
        ip_entries(made).dom() == Set::<IpKey>::empty(),
{
    DashMap::new()
}

/// `DashMap::get`, with the value copied out: the bucket under `key`, if the
/// map has one.
#[verifier::external_body]
pub(crate) fn ip_map_get(map: &IpLimiters, key: IpKey) -> (found: Option<SimpleLimiter>)
    ensures
        match found {
            Some(limiter) => ip_entries(*map).contains_key(key) && ip_entries(*map)[key]
                == limiter@.raw(),
            None => !ip_entries(*map).contains_key(key),
        },
{
    match map.get(&key) {
        Some(entry) => Some(*entry),
        None => None,
    }
}

/// `DashMap::insert`: the map holds `limiter` under `key`, in place of what it
/// held there; the other entries stay.
#[verifier::external_body]
pub(crate) fn ip_map_insert(map: &mut IpLimiters, key: IpKey, limiter: SimpleLimiter)
    ensures
        ip_entries(*final(map)) == ip_entries(*old(map)).insert(key, limiter@.raw()),
{
    map.insert(key, limiter);
}

/// `DashMap::new`: a map without entries.
#[verifier::external_body]
pub(crate) fn named_map_new() -> (made: NamedLimiters)
    ensures
        named_entries(made).dom() == Set::<Seq<char>>::empty(),
{
    DashMap::new()
}

/// `DashMap::get`, with the value copied out: the bucket under `key`, if the
/// map has one.
#[verifier::external_body]
pub(crate) fn named_map_get(map: &NamedLimiters, key: &String) -> (found: Option<
    SimpleLimiter,
>)
    ensures
        match found {
            Some(limiter) => named_entries(*map).contains_key(key@) && named_entries(*map)[key@]
                == limiter@.raw(),
            None => !named_entries(*map).contains_key(key@),
        },
{
    match map.get(key) {
        Some(entry) => Some(*entry),
        None => None,
    }
}

/// `DashMap::insert`: the map holds `limiter` under `key`, in place of what it
/// held there; the other entries stay.
#[verifier::external_body]
pub(crate) fn named_map_insert(map: &mut NamedLimiters, key: String, limiter: SimpleLimiter)
    ensures
        named_entries(*final(map)) == named_entries(*old(map)).insert(key@, limiter@.raw()),
{
    map.insert(key, limiter);
}

} // verus!
