//! The limiters: a token bucket that is fed the time, the request limiter by
//! client address, and the bandwidth manager with its four kinds of flow.

use crate::config::BandwidthLimitConfig;
use crate::config::RateLimitConfig;
use crate::networking::addr::IpAddr;
use crate::traffic::bucket::Bucket;
use crate::traffic::bucket::RawBucket;
use crate::traffic::bucket::NANOS_PER_SEC;
use crate::traffic::store::ip_entries;
use crate::traffic::store::ip_map_get;
use crate::traffic::store::ip_map_insert;
use crate::traffic::store::ip_map_new;
use crate::traffic::store::named_entries;
use crate::traffic::store::named_map_get;
use crate::traffic::store::named_map_insert;
use crate::traffic::store::named_map_new;
use crate::traffic::store::IpKey;
use crate::traffic::store::IpLimiters;
use crate::traffic::store::NamedLimiters;
use vstd::prelude::*;

verus! {

/// Whether a request for tokens was met.
#[derive(Clone, Copy, Debug, PartialEq, Eq, Structural)]
pub enum Readiness {
    /// The tokens were deducted.
    Ready,
    /// Nothing was deducted; try again after this many nanoseconds.
    RetryAfter(u64),
}

/// A token bucket with continuous refill.
#[derive(Clone, Copy, Debug)]
pub struct SimpleLimiter {
    rate_per_sec: u32,
    burst_size: u32,
    tokens_nano: u64,
    last_update: u64,
}

impl View for SimpleLimiter {
    type V = Bucket;

    closed spec fn view(&self) -> Bucket {
        let capacity = (self.burst_size as nat) * (NANOS_PER_SEC as nat);
        Bucket {
            rate: self.rate_per_sec as nat,
            burst: self.burst_size as nat,
            tokens: if self.tokens_nano as nat <= capacity {
                self.tokens_nano as nat
            } else {
                capacity
            },
            last: self.last_update as nat,
        }
    }
}

impl SimpleLimiter {
    #[verifier::type_invariant]
    spec fn inv(self) -> bool {
        self.tokens_nano as nat <= (self.burst_size as nat) * (NANOS_PER_SEC as nat)
    }

    /// The bucket of a limiter is within its capacity.
    pub proof fn lemma_wf(self)
        ensures
            self@.wf(),
    {
    }

    /// A full bucket, created at time `now`.
    pub fn new(rate_per_sec: u32, burst_size: u32, now: u64) -> (limiter: SimpleLimiter)
        ensures
            limiter@ == Bucket::full(rate_per_sec as nat, burst_size as nat, now as nat),
            limiter@.wf(),
    {
        assert((burst_size as nat) * (NANOS_PER_SEC as nat) <= 0xffff_ffff * 1_000_000_000)
            by (nonlinear_arith)
            requires
                burst_size <= 0xffff_ffff,
                NANOS_PER_SEC == 1_000_000_000,
        ;
        let tokens: u64 = (burst_size as u64) * NANOS_PER_SEC;
        SimpleLimiter { rate_per_sec, burst_size, tokens_nano: tokens, last_update: now }
    }

    /// The bucket that was found, or a full one made at `now` where none was.
    pub fn found_or_new(
        found: Option<SimpleLimiter>,
        rate_per_sec: u32,
        burst_size: u32,
        now: u64,
    ) -> (limiter: SimpleLimiter)
        ensures
            limiter@ == match found {
                Some(l) => l@,
                None => Bucket::full(rate_per_sec as nat, burst_size as nat, now as nat),
            },
    {
        match found {
            Some(limiter) => limiter,
            None => SimpleLimiter::new(rate_per_sec, burst_size, now),
        }
    }

    /// Tokens added per second.
    pub fn rate_per_sec(&self) -> (rate: u32)
        ensures
            rate == self@.rate,
    {
        self.rate_per_sec
    }

    /// Capacity in whole tokens.
    pub fn burst_size(&self) -> (burst: u32)
        ensures
            burst == self@.burst,
    {
        self.burst_size
    }

    /// Available tokens as of the last refill, in billionths.
    pub fn available_nanos(&self) -> (tokens: u64)
        ensures
            tokens == self@.tokens,
            self@.wf(),
    {
        proof {
            use_type_invariant(self);
        }
        self.tokens_nano
    }

    /// Time of the last refill, in nanoseconds.
    pub fn last_update(&self) -> (last: u64)
        ensures
            last == self@.last,
    {
        self.last_update
    }

    /// Adds what was earned since the last refill, up to the capacity.
    pub fn refill(&mut self, now: u64)
        ensures
            final(self)@ == old(self)@.refill(now as nat),
    {
        proof {
            use_type_invariant(&*self);
        }
        let cap: u64 = (self.burst_size as u64) * NANOS_PER_SEC;
        if now > self.last_update {
            let elapsed: u64 = now - self.last_update;
            assert((elapsed as nat) * (self.rate_per_sec as nat) <= 0xffff_ffff_ffff_ffff
                * 0xffff_ffff) by (nonlinear_arith)
                requires
                    elapsed <= 0xffff_ffff_ffff_ffff,
                    self.rate_per_sec <= 0xffff_ffff,
            ;
            let earned: u128 = (elapsed as u128) * (self.rate_per_sec as u128);
            if earned > 0 {
                let sum: u128 = self.tokens_nano as u128 + earned;
                let tokens: u64 = if sum <= cap as u128 { sum as u64 } else { cap };
                *self = SimpleLimiter {
                    rate_per_sec: self.rate_per_sec,
                    burst_size: self.burst_size,
                    tokens_nano: tokens,
                    last_update: now,
                };
            }
        }
    }

    /// Takes `n` tokens if that many are available at time `now`, and none
    /// otherwise.
    pub fn check_n(&mut self, n: u32, now: u64) -> (res: Result<(), ()>)
        ensures
            res.is_ok() == old(self)@.admits(n as nat, now as nat),
            final(self)@ == old(self)@.after_check(n as nat, now as nat),
    {
        self.refill(now);
        proof {
            use_type_invariant(&*self);
        }
        assert((n as nat) * (NANOS_PER_SEC as nat) <= 0xffff_ffff * 1_000_000_000)
            by (nonlinear_arith)
            requires
                n <= 0xffff_ffff,
                NANOS_PER_SEC == 1_000_000_000,
        ;
        let need: u64 = (n as u64) * NANOS_PER_SEC;
        if self.tokens_nano >= need {
            *self = SimpleLimiter {
                rate_per_sec: self.rate_per_sec,
                burst_size: self.burst_size,
                tokens_nano: self.tokens_nano - need,
                last_update: self.last_update,
            };
            Ok(())
        } else {
            Err(())
        }
    }

    /// One turn of waiting for `n` tokens: takes them if they are available at
    /// time `now`; otherwise says how long the caller has to sleep before the
    /// next turn.
    pub fn until_n_ready(&mut self, n: u32, now: u64) -> (res: Readiness)
        requires
            old(self)@.rate > 0,
        ensures
            (res == Readiness::Ready) == old(self)@.admits(n as nat, now as nat),
            final(self)@ == old(self)@.after_check(n as nat, now as nat),
            res matches Readiness::RetryAfter(nanos) ==> nanos == old(self)@.wait_nanos(
                n as nat,
                now as nat,
            ) && nanos > 0,
    {
        match self.check_n(n, now) {
            Ok(()) => Readiness::Ready,
            Err(()) => {
                proof {
                    use_type_invariant(&*self);
                }
                assert((n as nat) * (NANOS_PER_SEC as nat) <= 0xffff_ffff * 1_000_000_000)
                    by (nonlinear_arith)
                    requires
                        n <= 0xffff_ffff,
                        NANOS_PER_SEC == 1_000_000_000,
                ;
                let need: u64 = (n as u64) * NANOS_PER_SEC;
                let deficit: u64 = need - self.tokens_nano;
                let rate: u64 = self.rate_per_sec as u64;
                let nanos: u64 = (deficit + (rate - 1)) / rate;
                assert(nanos > 0) by (nonlinear_arith)
                    requires
                        nanos == (deficit + (rate - 1)) / (rate as int),
                        deficit > 0,
                        rate > 0,
                ;
                Readiness::RetryAfter(nanos)
            },
        }
    }
}

/// The bucket under `key`, or the one that is made for it on first use.
pub open spec fn bucket_for<K>(entries: Map<K, RawBucket>, key: K, made: Bucket) -> Bucket {
    if entries.contains_key(key) {
        Bucket::of_raw(entries[key])
    } else {
        made
    }
}

/// The mathematical state of a request limiter.
pub struct Admission {
    pub config: RateLimitConfig,
    /// The bucket of each client address that was seen.
    pub buckets: Map<IpKey, RawBucket>,
}

impl Admission {
    /// The bucket that a client gets on its first request, made at `now`: of
    /// the configured rate and burst.
    pub open spec fn first_bucket(self, now: nat) -> Bucket {
        Bucket::full(self.config.requests_per_second as nat, self.config.burst as nat, now)
    }

    /// Whether a request from `key` at `now` is let in: always where the
    /// limiter is switched off, and otherwise where the client's bucket has
    /// one token.
    pub open spec fn allows(self, key: IpKey, now: nat) -> bool {
        !self.config.enabled || bucket_for(self.buckets, key, self.first_bucket(now)).admits(
            1,
            now,
        )
    }

    /// The state after a request from `key` at `now`.
    pub open spec fn after_check(self, key: IpKey, now: nat) -> Admission {
        if !self.config.enabled {
            self
        } else {
            Admission {
                buckets: self.buckets.insert(
                    key,
                    bucket_for(self.buckets, key, self.first_bucket(now)).after_check(1, now).raw(),
                ),
                ..self
            }
        }
    }

    /// How many of `m` requests that `key` makes at the same time `now` are
    /// let in.
    pub open spec fn let_in(self, key: IpKey, now: nat, m: nat) -> nat
        decreases m,
    {
        if m == 0 {
            0
        } else {
            (if self.allows(key, now) {
                1nat
            } else {
                0nat
            }) + self.after_check(key, now).let_in(key, now, (m - 1) as nat)
        }
    }
}

/// Of requests made at the time of its last refill, a bucket that holds
/// `whole` whole tokens lets in that many, and no more.
proof fn lemma_let_in_from(a: Admission, key: IpKey, now: nat, m: nat, whole: nat)
    requires
        a.config.enabled,
        a.buckets.contains_key(key),
        Bucket::of_raw(a.buckets[key]).tokens == whole * (NANOS_PER_SEC as nat),
        Bucket::of_raw(a.buckets[key]).last == now,
    ensures
        a.let_in(key, now, m) == if m <= whole {
            m
        } else {
            whole
        },
    decreases m,
{
    if m > 0 {
        let b = Bucket::of_raw(a.buckets[key]);
        assert(b.earned(now) == 0);
        assert(b.refill(now) == b);
        let next = a.after_check(key, now);
        assert(next.buckets.contains_key(key));
        if whole > 0 {
            assert(whole * (NANOS_PER_SEC as nat) >= 1 * (NANOS_PER_SEC as nat))
                by (nonlinear_arith)
                requires
                    whole >= 1,
            ;
            assert(b.admits(1, now));
            assert((whole - 1) * (NANOS_PER_SEC as nat) == whole * (NANOS_PER_SEC as nat) - 1 * (
            NANOS_PER_SEC as nat)) by (nonlinear_arith);
            lemma_let_in_from(next, key, now, (m - 1) as nat, (whole - 1) as nat);
        } else {
            assert(!b.admits(1, now));
            lemma_let_in_from(next, key, now, (m - 1) as nat, 0);
        }
    }
}

/// Of `m` requests that arrive at the same time from an address that the
/// limiter has not seen, exactly the smaller of `m` and the burst are let in,
/// and the others are refused. A limiter that is switched off lets in all of
/// them.
pub proof fn lemma_burst_let_in(a: Admission, key: IpKey, now: nat, m: nat)
    requires
        !a.buckets.contains_key(key),
    ensures
        a.config.enabled ==> a.let_in(key, now, m) == if m <= a.config.burst {
            m
        } else {
            a.config.burst as nat
        },
        !a.config.enabled ==> a.let_in(key, now, m) == m,
    decreases m,
{
    if m > 0 {
        if a.config.enabled {
            let burst = a.config.burst as nat;
            let b = a.first_bucket(now);
            assert(b.earned(now) == 0);
            assert(b.refill(now) == b);
            let next = a.after_check(key, now);
            assert(next.buckets.contains_key(key));
            if burst > 0 {
                assert(burst * (NANOS_PER_SEC as nat) >= 1 * (NANOS_PER_SEC as nat))
                    by (nonlinear_arith)
                    requires
                        burst >= 1,
                ;
                assert(b.admits(1, now));
                assert((burst - 1) * (NANOS_PER_SEC as nat) == burst * (NANOS_PER_SEC as nat) - 1
                    * (NANOS_PER_SEC as nat)) by (nonlinear_arith);
                lemma_let_in_from(next, key, now, (m - 1) as nat, (burst - 1) as nat);
            } else {
                assert(b.tokens == 0) by (nonlinear_arith)
                    requires
                        b.tokens == burst * (NANOS_PER_SEC as nat),
                        burst == 0,
                ;
                assert(!b.admits(1, now));
                lemma_let_in_from(next, key, now, (m - 1) as nat, 0);
            }
        } else {
            lemma_burst_let_in(a, key, now, (m - 1) as nat);
        }
    }
}

/// The limiter of requests per client address.
pub struct RateLimiter {
    limiters: IpLimiters,
    config: RateLimitConfig,
}

impl View for RateLimiter {
    type V = Admission;

    closed spec fn view(&self) -> Admission {
        Admission { config: self.config, buckets: ip_entries(self.limiters) }
    }
}

impl RateLimiter {
    /// A limiter that has seen no client.
    pub fn new(config: RateLimitConfig) -> (limiter: RateLimiter)
        ensures
            limiter@ == (Admission { config, buckets: Map::empty() }),
    {
        let limiter = RateLimiter { limiters: ip_map_new(), config };
        assert(limiter@.buckets =~= Map::empty());
        limiter
    }

    /// Whether a connection from `ip` at time `now` is let in. Where the
    /// limiter is switched on, the client's bucket is made on its first
    /// request and pays one token for each request that is let in.
    pub fn check(&mut self, ip: IpAddr, now: u64) -> (allowed: bool)
        ensures
            allowed == old(self)@.allows(ip.spec_key(), now as nat),
            final(self)@ == old(self)@.after_check(ip.spec_key(), now as nat),
    {
        if !self.config.enabled {
            return true;
        }
        let key = ip.key();
        let mut limiter = SimpleLimiter::found_or_new(
            ip_map_get(&self.limiters, key),
            self.config.requests_per_second,
            self.config.burst,
            now,
        );
        let allowed = limiter.check_n(1, now).is_ok();
        ip_map_insert(&mut self.limiters, key, limiter);
        allowed
    }
}

/// The capacity of a bandwidth bucket, in bytes: enough to smooth the bursts
/// of a TCP connection.
pub const BANDWIDTH_BURST: u32 = 65536;

/// The bucket that a flow gets on first use, made at `now` for a configured
/// rate of `rate_per_sec` bytes per second.
pub open spec fn bandwidth_bucket(rate_per_sec: u32, now: nat) -> Bucket {
    Bucket::full(rate_per_sec as nat, BANDWIDTH_BURST as nat, now)
}

/// The mathematical state of a bandwidth manager.
pub struct Shaping {
    pub config: BandwidthLimitConfig,
    pub client_upload: Map<IpKey, RawBucket>,
    pub client_download: Map<IpKey, RawBucket>,
    pub backend_upload: Map<Seq<char>, RawBucket>,
    pub backend_download: Map<Seq<char>, RawBucket>,
}

impl Shaping {
    /// The configured upload rate of clients, where clients are limited.
    pub open spec fn client_upload_rate(self) -> Option<u32> {
        if !self.config.enabled {
            None
        } else {
            match self.config.client {
                Some(limits) => Some(limits.upload_per_sec),
                None => None,
            }
        }
    }

    /// The configured download rate of clients, where clients are limited.
    pub open spec fn client_download_rate(self) -> Option<u32> {
        if !self.config.enabled {
            None
        } else {
            match self.config.client {
                Some(limits) => Some(limits.download_per_sec),
                None => None,
            }
        }
    }

    /// The configured upload rate of backends, where backends are limited.
    pub open spec fn backend_upload_rate(self) -> Option<u32> {
        if !self.config.enabled {
            None
        } else {
            match self.config.backend {
                Some(limits) => Some(limits.upload_per_sec),
                None => None,
            }
        }
    }

    /// The configured download rate of backends, where backends are limited.
    pub open spec fn backend_download_rate(self) -> Option<u32> {
        if !self.config.enabled {
            None
        } else {
            match self.config.backend {
                Some(limits) => Some(limits.download_per_sec),
                None => None,
            }
        }
    }
}

/// What a lookup in a map of buckets comes to: with no configured rate there
/// is no limit and the map stays as it is; otherwise the bucket under `key` is
/// returned, made first where the map has none.
pub open spec fn looked_up<K>(
    rate: Option<u32>,
    before: Map<K, RawBucket>,
    key: K,
    now: nat,
    found: Option<Bucket>,
    after: Map<K, RawBucket>,
) -> bool {
    match rate {
        None => found is None && after == before,
        Some(r) => found == Some(bucket_for(before, key, bandwidth_bucket(r, now))) && after
            == before.insert(key, bucket_for(before, key, bandwidth_bucket(r, now)).raw()),
    }
}

/// The bucket of a limiter that may be absent.
pub open spec fn bucket_of(limiter: Option<SimpleLimiter>) -> Option<Bucket> {
    match limiter {
        Some(l) => Some(l@),
        None => None,
    }
}

/// The token buckets of the four kinds of flow: what clients send and receive,
/// by client address, and what backends are sent and send, by backend key.
pub struct BandwidthManager {
    config: BandwidthLimitConfig,
    client_upload: IpLimiters,
    client_download: IpLimiters,
    backend_upload: NamedLimiters,
    backend_download: NamedLimiters,
}

impl View for BandwidthManager {
    type V = Shaping;

    closed spec fn view(&self) -> Shaping {
        Shaping {
            config: self.config,
            client_upload: ip_entries(self.client_upload),
            client_download: ip_entries(self.client_download),
            backend_upload: named_entries(self.backend_upload),
            backend_download: named_entries(self.backend_download),
        }
    }
}

fn get_or_create_ip_limiter(
    map: &mut IpLimiters,
    key: IpKey,
    rate_per_sec: u32,
    now: u64,
) -> (limiter: SimpleLimiter)
    ensures
        limiter@ == bucket_for(
            ip_entries(*old(map)),
            key,
            bandwidth_bucket(rate_per_sec, now as nat),
        ),
        ip_entries(*final(map)) == ip_entries(*old(map)).insert(key, limiter@.raw()),
{
    match ip_map_get(map, key) {
        Some(limiter) => {
            assert(ip_entries(*map).insert(key, limiter@.raw()) =~= ip_entries(*map));
            assert(Bucket::of_raw(limiter@.raw()) == limiter@);
            limiter
        },
        None => {
            let limiter = SimpleLimiter::new(rate_per_sec, BANDWIDTH_BURST, now);
            ip_map_insert(map, key, limiter);
            limiter
        },
    }
}

fn get_or_create_named_limiter(
    map: &mut NamedLimiters,
    key: String,
    rate_per_sec: u32,
    now: u64,
) -> (limiter: SimpleLimiter)
    ensures
        limiter@ == bucket_for(
            named_entries(*old(map)),
            key@,
            bandwidth_bucket(rate_per_sec, now as nat),
        ),
        named_entries(*final(map)) == named_entries(*old(map)).insert(key@, limiter@.raw()),
{
    match named_map_get(map, &key) {
        Some(limiter) => {
            assert(named_entries(*map).insert(key@, limiter@.raw()) =~= named_entries(*map));
            assert(Bucket::of_raw(limiter@.raw()) == limiter@);
            limiter
        },
        None => {
            let limiter = SimpleLimiter::new(rate_per_sec, BANDWIDTH_BURST, now);
            named_map_insert(map, key, limiter);
            limiter
        },
    }
}

impl BandwidthManager {
    /// A manager without buckets.
    pub fn new(config: BandwidthLimitConfig) -> (manager: BandwidthManager)
        ensures
            manager@ == (Shaping {
                config,
                client_upload: Map::empty(),
                client_download: Map::empty(),
                backend_upload: Map::empty(),
                backend_download: Map::empty(),
            }),
    {
        let manager = BandwidthManager {
            config,
            client_upload: ip_map_new(),
            client_download: ip_map_new(),
            backend_upload: named_map_new(),
            backend_download: named_map_new(),
        };
        assert(manager@.client_upload =~= Map::empty());
        assert(manager@.client_download =~= Map::empty());
        assert(manager@.backend_upload =~= Map::empty());
        assert(manager@.backend_download =~= Map::empty());
        manager
    }

    /// The bucket that the bytes read from the client at `ip` pay into, made
    /// at `now` if the client has none yet; `None` where clients are not
    /// limited.
    pub fn get_client_upload_limiter(&mut self, ip: IpAddr, now: u64) -> (limiter: Option<
        SimpleLimiter,
    >)
        ensures
            looked_up(
                old(self)@.client_upload_rate(),
                old(self)@.client_upload,
                ip.spec_key(),
                now as nat,
                bucket_of(limiter),
                final(self)@.client_upload,
            ),
            final(self)@ == (Shaping { client_upload: final(self)@.client_upload, ..old(self)@ }),
    {
        if !self.config.enabled {
            return None;
        }
        match self.config.client {
            None => None,
            Some(limits) => Some(
                get_or_create_ip_limiter(
                    &mut self.client_upload,
                    ip.key(),
                    limits.upload_per_sec,
                    now,
                ),
            ),
        }
    }

    /// The bucket that the bytes written to the client at `ip` pay into.
    pub fn get_client_download_limiter(&mut self, ip: IpAddr, now: u64) -> (limiter: Option<
        SimpleLimiter,
    >)
        ensures
            looked_up(
                old(self)@.client_download_rate(),
                old(self)@.client_download,
                ip.spec_key(),
                now as nat,
                bucket_of(limiter),
                final(self)@.client_download,
            ),
            final(self)@ == (Shaping {
                client_download: final(self)@.client_download,
                ..old(self)@
            }),
    {
        if !self.config.enabled {
            return None;
        }
        match self.config.client {
            None => None,
            Some(limits) => Some(
                get_or_create_ip_limiter(
                    &mut self.client_download,
                    ip.key(),
                    limits.download_per_sec,
                    now,
                ),
            ),
        }
    }

    /// The bucket that the bytes written to the backend `key` pay into.
    pub fn get_backend_upload_limiter(&mut self, key: String, now: u64) -> (limiter: Option<
        SimpleLimiter,
    >)
        ensures
            looked_up(
                old(self)@.backend_upload_rate(),
                old(self)@.backend_upload,
                key@,
                now as nat,
                bucket_of(limiter),
                final(self)@.backend_upload,
            ),
            final(self)@ == (Shaping { backend_upload: final(self)@.backend_upload, ..old(self)@ }),
    {
        if !self.config.enabled {
            return None;
        }
        match self.config.backend {
            None => None,
            Some(limits) => Some(
                get_or_create_named_limiter(
                    &mut self.backend_upload,
                    key,
                    limits.upload_per_sec,
                    now,
                ),
            ),
        }
    }

    /// The bucket that the bytes read from the backend `key` pay into.
    pub fn get_backend_download_limiter(&mut self, key: String, now: u64) -> (limiter: Option<
        SimpleLimiter,
    >)
        ensures
            looked_up(
                old(self)@.backend_download_rate(),
                old(self)@.backend_download,
                key@,
                now as nat,
                bucket_of(limiter),
                final(self)@.backend_download,
            ),
            final(self)@ == (Shaping {
                backend_download: final(self)@.backend_download,
                ..old(self)@
            }),
    {
        if !self.config.enabled {
            return None;
        }
        match self.config.backend {
            None => None,
            Some(limits) => Some(
                get_or_create_named_limiter(
                    &mut self.backend_download,
                    key,
                    limits.download_per_sec,
                    now,
                ),
            ),
        }
    }

    /// Puts back the bucket of the client at `ip` after its streams have paid
    /// into it, so that the next lookup finds it as it stands.
    pub fn put_client_upload_limiter(&mut self, ip: IpAddr, limiter: SimpleLimiter)
        ensures
            final(self)@ == (Shaping {
                client_upload: old(self)@.client_upload.insert(ip.spec_key(), limiter@.raw()),
                ..old(self)@
            }),
    {
        ip_map_insert(&mut self.client_upload, ip.key(), limiter);
    }

    /// Puts back the download bucket of the client at `ip`.
    pub fn put_client_download_limiter(&mut self, ip: IpAddr, limiter: SimpleLimiter)
        ensures
            final(self)@ == (Shaping {
                client_download: old(self)@.client_download.insert(ip.spec_key(), limiter@.raw()),
                ..old(self)@
            }),
    {
        ip_map_insert(&mut self.client_download, ip.key(), limiter);
    }

    /// Puts back the upload bucket of the backend `key`.
    pub fn put_backend_upload_limiter(&mut self, key: String, limiter: SimpleLimiter)
        ensures
            final(self)@ == (Shaping {
                backend_upload: old(self)@.backend_upload.insert(key@, limiter@.raw()),
                ..old(self)@
            }),
    {
        named_map_insert(&mut self.backend_upload, key, limiter);
    }

    /// Puts back the download bucket of the backend `key`.
    pub fn put_backend_download_limiter(&mut self, key: String, limiter: SimpleLimiter)
        ensures
            final(self)@ == (Shaping {
                backend_download: old(self)@.backend_download.insert(key@, limiter@.raw()),
                ..old(self)@
            }),
    {
        named_map_insert(&mut self.backend_download, key, limiter);
    }
}

} // verus!
