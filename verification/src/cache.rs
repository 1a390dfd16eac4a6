//! Caches of resolved answers, blocking verdicts and encoded responses.
//! The caches are shared by every task that answers queries and evict
//! entries on their own, so a read tells nothing about an earlier write;
//! what is verified is the decision taken on whatever entry a read returns.

use vstd::prelude::*;
use hickory_proto::op::Message;
use crate::dns::{
    append_answers_of, into_response, msg_answers, msg_header, msg_queries, msg_rest,
    set_response_code, HeaderView,
};

verus! {

/// A concurrent bounded cache (`moka::sync::Cache`).
#[verifier::external_type_specification]
#[verifier::external_body]
#[verifier::reject_recursive_types(K)]
#[verifier::reject_recursive_types(V)]
#[verifier::reject_recursive_types(S)]
pub struct ExMokaCache<K, V, S>(moka::sync::Cache<K, V, S>);

/// The maximum capacity that a DNS cache was built with: what
/// `Cache::policy().max_capacity()` reports, fixed once the cache is built.
pub uninterp spec fn dns_cache_capacity(c: moka::sync::Cache<CacheKey, CacheEntry>) -> u64;

/// The maximum capacity that a response cache was built with: what
/// `Cache::policy().max_capacity()` reports, fixed once the cache is built.
pub uninterp spec fn response_cache_capacity(c: moka::sync::Cache<(String, u16), CachedResponse>) -> u64;

/// An empty DNS cache built with maximum capacity `max_capacity`
/// (`Cache::builder().max_capacity(..).build()`); the builder records the
/// capacity as given.
#[verifier::external_body]
pub(crate) fn dns_cache_build(max_capacity: u64) -> (r: moka::sync::Cache<CacheKey, CacheEntry>)
    ensures
        dns_cache_capacity(r) == max_capacity,
{
    moka::sync::Cache::builder().max_capacity(max_capacity).build()
}

/// An empty response cache built with maximum capacity `max_capacity`
/// (`Cache::builder().max_capacity(..).build()`); the builder records the
/// capacity as given.
#[verifier::external_body]
pub(crate) fn response_cache_build(max_capacity: u64) -> (r: moka::sync::Cache<(String, u16), CachedResponse>)
    ensures
        response_cache_capacity(r) == max_capacity,
{
    moka::sync::Cache::builder().max_capacity(max_capacity).build()
}

/// A clone of the value stored for `key`, if any (`Cache::get`). Other tasks
/// write to the same cache and it evicts on its own: nothing is stated of the result.
#[verifier::external_body]
pub(crate) fn moka_get<K: std::hash::Hash + Eq + Send + Sync + 'static, V: Clone + Send + Sync + 'static>(
    cache: &moka::sync::Cache<K, V>,
    key: &K,
) -> Option<V> {
    cache.get(key)
}

/// Stores `value` for `key` (`Cache::insert`).
#[verifier::external_body]
pub(crate) fn moka_insert<K: std::hash::Hash + Eq + Send + Sync + 'static, V: Clone + Send + Sync + 'static>(
    cache: &moka::sync::Cache<K, V>,
    key: K,
    value: V,
) {
    cache.insert(key, value)
}

/// Drops the entry for `key` (`Cache::invalidate`).
#[verifier::external_body]
pub(crate) fn moka_invalidate<K: std::hash::Hash + Eq + Send + Sync + 'static, V: Clone + Send + Sync + 'static>(
    cache: &moka::sync::Cache<K, V>,
    key: &K,
) {
    cache.invalidate(key)
}

/// Whether an entry for `key` is present (`Cache::contains_key`); nothing is stated of the result.
#[verifier::external_body]
pub(crate) fn moka_contains<K: std::hash::Hash + Eq + Send + Sync + 'static, V: Clone + Send + Sync + 'static>(
    cache: &moka::sync::Cache<K, V>,
    key: &K,
) -> bool {
    cache.contains_key(key)
}

/// Whole seconds since the Unix epoch by the system clock
/// (`SystemTime::now().duration_since(UNIX_EPOCH)`); `None` where the clock
/// reads before the epoch. Nothing else is stated of it.
#[verifier::external_body]
pub(crate) fn secs_since_epoch() -> Option<u64> {
    match std::time::SystemTime::now().duration_since(std::time::UNIX_EPOCH) {
        Ok(d) => Some(d.as_secs()),
        Err(_) => None,
    }
}

/// The current time in seconds since the Unix epoch; `None` where the clock
/// reads before the epoch or beyond what an `i64` holds.
pub fn unix_now() -> (r: Option<i64>)
    ensures
        r matches Some(t) ==> t >= 0,
{
    match secs_since_epoch() {
        Some(s) => {
            if s <= 0x7fff_ffff_ffff_ffff {
                Some(s as i64)
            } else {
                None
            }
        },
        None => None,
    }
}

/// `a + b`, or `i64::MAX` when that overflows.
pub fn add_seconds(a: i64, b: u64) -> (r: i64)
    ensures
        r == if a + b > i64::MAX { i64::MAX as int } else { a + b },
{
    let sum: i128 = a as i128 + b as i128;
    if sum > i64::MAX as i128 {
        i64::MAX
    } else {
        sum as i64
    }
}

/// Key of the DNS cache: the question's name in lower case and its record type.
#[derive(Debug, Clone, Hash, PartialEq, Eq)]
pub struct CacheKey {
    pub name: String,
    pub record_type: u16,
}

/// A cached resolution: the answers (held in the answer section of a
/// message), the response code, when it expires (Unix seconds), and the
/// version of the rules it was resolved under.
#[derive(Debug, Clone)]
pub struct ResolvedCacheEntry {
    pub records: Message,
    pub response_code: u16,
    pub expires_at: i64,
    pub rules_version: u64,
}

impl ResolvedCacheEntry {
    /// Whether the entry has expired at time `now`.
    pub fn is_expired_at(&self, now: i64) -> (b: bool)
        ensures
            b == (now >= self.expires_at),
    {
        now >= self.expires_at
    }

    /// Whether the entry has expired now; an entry counts as expired where
    /// the clock cannot be read.
    pub fn is_expired(&self) -> bool {
        match unix_now() {
            Some(now) => self.is_expired_at(now),
            None => true,
        }
    }
}

/// An entry of the DNS cache.
#[derive(Debug, Clone)]
pub enum CacheEntry {
    Resolved(ResolvedCacheEntry),
    /// Blocked under this rules version.
    Blocked(u64),
}

/// The outcome of a cache lookup.
#[derive(Debug, Clone)]
pub enum CacheLookup {
    Resolved(ResolvedCacheEntry),
    Blocked,
    Miss,
}

/// Longest time a negative answer is cached, in seconds.
pub const MAX_NEGATIVE_TTL: u32 = 3600;

/// What a lookup makes of the entry it read: a resolved entry counts while
/// it has not expired and was made under the current rules version; a
/// blocked entry counts under the current rules version; anything else is a
/// miss, and a stale entry is to be dropped (second component).
pub fn classify_entry(entry: Option<CacheEntry>, now: i64, current_rules_version: u64) -> (r: (
    CacheLookup,
    bool,
))
    ensures
        match entry {
            None => r.0 is Miss && !r.1,
            Some(CacheEntry::Resolved(e)) => if now < e.expires_at && e.rules_version
                == current_rules_version {
                r.0 == CacheLookup::Resolved(e) && !r.1
            } else {
                r.0 is Miss && r.1
            },
            Some(CacheEntry::Blocked(v)) => if v == current_rules_version {
                r.0 is Blocked && !r.1
            } else {
                r.0 is Miss && r.1
            },
        },
{
    match entry {
        None => (CacheLookup::Miss, false),
        Some(CacheEntry::Resolved(e)) => {
            if !e.is_expired_at(now) && e.rules_version == current_rules_version {
                (CacheLookup::Resolved(e), false)
            } else {
                (CacheLookup::Miss, true)
            }
        },
        Some(CacheEntry::Blocked(v)) => {
            if v == current_rules_version {
                (CacheLookup::Blocked, false)
            } else {
                (CacheLookup::Miss, true)
            }
        },
    }
}

/// What the blocked-check makes of the entry it read: whether it is a
/// blocked entry of the current rules version, and whether it is a blocked
/// entry of another version (to be dropped).
pub fn blocked_entry(entry: Option<CacheEntry>, current_rules_version: u64) -> (r: (bool, bool))
    ensures
        r.0 == (entry matches Some(CacheEntry::Blocked(v)) && v == current_rules_version),
        r.1 == (entry matches Some(CacheEntry::Blocked(v)) && v != current_rules_version),
{
    match entry {
        Some(CacheEntry::Blocked(v)) => (v == current_rules_version, v != current_rules_version),
        _ => (false, false),
    }
}

/// The DNS cache: resolved answers and blocking verdicts per name and type.
pub struct DnsCache {
    cache: moka::sync::Cache<CacheKey, CacheEntry>,
}

impl DnsCache {
    /// The maximum number of entries the cache was built to hold.
    pub closed spec fn capacity(&self) -> u64 {
        dns_cache_capacity(self.cache)
    }

    /// An empty cache holding at most ten thousand entries.
    pub fn new() -> (c: Self)
        ensures
            c.capacity() == 10_000,
    {
        DnsCache { cache: dns_cache_build(10_000) }
    }

    /// Whether an entry for `key` is present.
    pub fn is_cached(&self, key: &CacheKey) -> bool {
        moka_contains(&self.cache, key)
    }

    /// Whether `key` is cached as blocked under the current rules version
    /// (`blocked_entry` on the entry read); a blocked entry of another version
    /// is dropped.
    pub fn is_blocked(&self, key: &CacheKey, current_rules_version: u64) -> (b: bool) {
        let entry = moka_get(&self.cache, key);
        let (blocked, stale) = blocked_entry(entry, current_rules_version);
        if stale {
            moka_invalidate(&self.cache, key);
        }
        blocked
    }

    /// Caches `key` as blocked under `version`.
    pub fn insert_blocked(&self, key: CacheKey, version: u64) {
        moka_insert(&self.cache, key, CacheEntry::Blocked(version));
    }

    /// Caches a resolution of `key` for `ttl_secs` seconds from now.
    pub fn insert_resolved(
        &self,
        key: CacheKey,
        records: Message,
        response_code: u16,
        ttl_secs: u64,
        rules_version: u64,
    ) {
        let now = match unix_now() {
            Some(t) => t,
            None => {
                return;
            },
        };
        let expires_at = add_seconds(now, ttl_secs);
        moka_insert(
            &self.cache,
            key,
            CacheEntry::Resolved(
                ResolvedCacheEntry { records, response_code, expires_at, rules_version },
            ),
        );
    }

    /// Looks `key` up: a resolved entry is returned only while it has not
    /// expired and was made under the current rules version, a blocked entry
    /// only under the current version; stale entries are dropped.
    pub fn get(&self, key: &CacheKey, current_rules_version: u64) -> (r: CacheLookup)
        ensures
            r matches CacheLookup::Resolved(e) ==> e.rules_version == current_rules_version,
    {
        let now = match unix_now() {
            Some(t) => t,
            None => {
                return CacheLookup::Miss;
            },
        };
        let entry = moka_get(&self.cache, key);
        let (lookup, stale) = classify_entry(entry, now, current_rules_version);
        if stale {
            moka_invalidate(&self.cache, key);
        }
        lookup
    }
}

/// The response built from a cached resolution: the request turned into a
/// response, with the cached response code and the cached answers appended;
/// all else is kept.
pub fn cached_response(msg: &Message, cached: &ResolvedCacheEntry) -> (r: Message)
    ensures
        msg_header(r) == (HeaderView {
            is_response: true,
            response_code: cached.response_code,
            ..msg_header(*msg)
        }),
        msg_queries(r) == msg_queries(*msg),
        msg_answers(r) == msg_answers(*msg) + msg_answers(cached.records),
        msg_rest(r) == msg_rest(*msg),
{
    let copy = msg.clone();
    let mut response = into_response(copy);
    set_response_code(&mut response, cached.response_code);
    append_answers_of(&mut response, &cached.records);
    response
}

/// An encoded response and when it expires (Unix seconds).
#[derive(Debug, Clone)]
pub struct CachedResponse {
    pub expires_at: i64,
    pub bytes: Vec<u8>,
}

/// `bytes` with its first two bytes replaced by the message id `id`
/// (big-endian), when it has at least two bytes.
pub open spec fn with_id(bytes: Seq<u8>, id: u16) -> Seq<u8> {
    if bytes.len() >= 2 {
        bytes.update(0, (id / 256) as u8).update(1, (id % 256) as u8)
    } else {
        bytes
    }
}

/// Writes the message id into the first two bytes of an encoded message.
pub fn patch_id(bytes: Vec<u8>, id: u16) -> (r: Vec<u8>)
    ensures
        r@ == with_id(bytes@, id),
{
    let mut b = bytes;
    if b.len() >= 2 {
        b.set(0, (id / 256) as u8);
        b.set(1, (id % 256) as u8);
    }
    b
}

/// Law: a cached response handed to a new request carries that request's id
/// in its first two bytes (big-endian) and is otherwise unchanged.
pub proof fn law_with_id(bytes: Seq<u8>, id: u16)
    requires
        bytes.len() >= 2,
    ensures
        with_id(bytes, id).len() == bytes.len(),
        with_id(bytes, id)[0] as int * 256 + with_id(bytes, id)[1] as int == id as int,
        with_id(bytes, id).subrange(2, bytes.len() as int) == bytes.subrange(2, bytes.len() as int),
{
    let r = with_id(bytes, id);
    assert(r[0] == (id / 256) as u8);
    assert(r[1] == (id % 256) as u8);
    assert(r.subrange(2, bytes.len() as int) =~= bytes.subrange(2, bytes.len() as int));
}

/// A cache of encoded responses keyed by name and record type.
pub struct ResponseCache {
    cache: moka::sync::Cache<(String, u16), CachedResponse>,
}

/// What a read of the response cache gives: nothing for an expired entry
/// (which is to be dropped), otherwise its bytes carrying the new id.
pub fn response_from_entry(entry: Option<CachedResponse>, now: i64, id: u16) -> (r: (
    Option<Vec<u8>>,
    bool,
))
    ensures
        match entry {
            None => r.0 is None && !r.1,
            Some(e) => if e.expires_at <= now {
                r.0 is None && r.1
            } else {
                r.0 matches Some(b) && b@ == with_id(e.bytes@, id) && !r.1
            },
        },
{
    match entry {
        None => (None, false),
        Some(e) => {
            if e.expires_at <= now {
                (None, true)
            } else {
                (Some(patch_id(e.bytes, id)), false)
            }
        },
    }
}

impl ResponseCache {
    /// The maximum number of responses the cache was built to hold.
    pub closed spec fn capacity(&self) -> u64 {
        response_cache_capacity(self.cache)
    }

    /// An empty cache holding at most `max_entries` responses.
    pub fn new(max_entries: u64) -> (c: Self)
        ensures
            c.capacity() == max_entries,
    {
        ResponseCache { cache: response_cache_build(max_entries) }
    }

    /// The cached response for `key` carrying message id `id`, unless expired:
    /// whatever entry is found, a returned response of at least two bytes
    /// carries `id` in its first two (big-endian).
    pub fn get_with_id(&self, key: &(String, u16), id: u16) -> (r: Option<Vec<u8>>)
        ensures
            r matches Some(b) ==> (b@.len() >= 2 ==> b@[0] as int * 256 + b@[1] as int == id as int),
    {
        let now = match unix_now() {
            Some(t) => t,
            None => {
                return None;
            },
        };
        let entry = moka_get(&self.cache, key);
        let ghost e0 = entry;
        let (bytes, stale) = response_from_entry(entry, now, id);
        proof {
            if let Some(e) = e0 {
                if e.bytes@.len() >= 2 {
                    law_with_id(e.bytes@, id);
                }
            }
        }
        if stale {
            moka_invalidate(&self.cache, key);
        }
        bytes
    }

    /// Caches `bytes` for `ttl_secs` seconds; a zero TTL caches nothing.
    pub fn insert(&self, key: (String, u16), bytes: Vec<u8>, ttl_secs: u64) {
        if ttl_secs == 0 {
            return;
        }
        let now = match unix_now() {
            Some(t) => t,
            None => {
                return;
            },
        };
        let expires_at = add_seconds(now, ttl_secs);
        moka_insert(&self.cache, key, CachedResponse { expires_at, bytes });
    }
}

} // verus!
