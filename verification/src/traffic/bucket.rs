//! The token bucket as mathematics: its state, what a refill and an attempt
//! do to it, and what holds of every run of attempts.
//!
//! Time is a monotonic reading in nanoseconds, and tokens are counted in
//! billionths, so that a refill of `elapsed * rate` is exact.

use vstd::arithmetic::div_mod::lemma_fundamental_div_mod;
use vstd::arithmetic::div_mod::lemma_mod_bound;
use vstd::arithmetic::mul::lemma_mul_inequality;
use vstd::arithmetic::mul::lemma_mul_is_distributive_add;
use vstd::prelude::*;

verus! {

/// Billionths per whole token, and nanoseconds per second.
pub const NANOS_PER_SEC: u64 = 1_000_000_000;

/// The mathematical state of a token bucket.
pub struct Bucket {
    /// Tokens added per second.
    pub rate: nat,
    /// Capacity, in whole tokens.
    pub burst: nat,
    /// Available tokens, in billionths.
    pub tokens: nat,
    /// Time of the last refill, in nanoseconds.
    pub last: nat,
}

impl Bucket {
    /// Capacity in billionths of a token.
    pub open spec fn capacity(self) -> nat {
        self.burst * (NANOS_PER_SEC as nat)
    }

    /// The available tokens never exceed the capacity.
    pub open spec fn wf(self) -> bool {
        self.tokens <= self.capacity()
    }

    /// A full bucket created at time `now`.
    pub open spec fn full(rate: nat, burst: nat, now: nat) -> Bucket {
        Bucket { rate, burst, tokens: burst * (NANOS_PER_SEC as nat), last: now }
    }

    /// Billionths of a token earned between the last refill and `now`.
    pub open spec fn earned(self, now: nat) -> nat {
        if now > self.last {
            ((now - self.last) * self.rate) as nat
        } else {
            0
        }
    }

    /// The bucket after a refill at time `now`: what was earned is added, up
    /// to the capacity, and the refill time advances. Where nothing was
    /// earned the bucket is unchanged.
    pub open spec fn refill(self, now: nat) -> Bucket {
        if self.earned(now) > 0 {
            let sum = self.tokens + self.earned(now);
            Bucket {
                tokens: if sum <= self.capacity() { sum } else { self.capacity() },
                last: now,
                ..self
            }
        } else {
            self
        }
    }

    /// Whether `n` whole tokens are available after a refill at `now`.
    pub open spec fn admits(self, n: nat, now: nat) -> bool {
        self.refill(now).tokens >= n * (NANOS_PER_SEC as nat)
    }

    /// The bucket after an attempt to take `n` tokens at time `now`.
    pub open spec fn after_check(self, n: nat, now: nat) -> Bucket {
        let r = self.refill(now);
        if self.admits(n, now) {
            Bucket { tokens: (r.tokens - n * (NANOS_PER_SEC as nat)) as nat, ..r }
        } else {
            r
        }
    }

    /// Nanoseconds until `n` tokens will have accumulated, counted from a
    /// refill at `now`; zero where they are available already.
    pub open spec fn wait_nanos(self, n: nat, now: nat) -> nat
        recommends
            self.rate > 0,
    {
        if self.admits(n, now) {
            0
        } else {
            let deficit = n * (NANOS_PER_SEC as nat) - self.refill(now).tokens;
            ((deficit + self.rate - 1) / (self.rate as int)) as nat
        }
    }
}

/// A request for `n` whole tokens made at time `now`.
pub struct Request {
    pub n: nat,
    pub now: nat,
}

/// The whole tokens granted when the requests are made one after the other,
/// starting from bucket `b`.
pub open spec fn granted(b: Bucket, reqs: Seq<Request>) -> nat
    decreases reqs.len(),
{
    if reqs.len() == 0 {
        0
    } else {
        let first = reqs[0];
        let got = if b.admits(first.n, first.now) { first.n } else { 0 };
        got + granted(b.after_check(first.n, first.now), reqs.drop_first())
    }
}

/// The bucket after the requests were made one after the other.
pub open spec fn after_all(b: Bucket, reqs: Seq<Request>) -> Bucket
    decreases reqs.len(),
{
    if reqs.len() == 0 {
        b
    } else {
        after_all(b.after_check(reqs[0].n, reqs[0].now), reqs.drop_first())
    }
}

/// An attempt keeps the bucket within its capacity, never moves the refill
/// time past the request, and takes no more than was there: what is left plus
/// what was granted is at most what was available plus what was earned.
pub proof fn lemma_check_conserves(b: Bucket, n: nat, now: nat)
    requires
        b.wf(),
    ensures
        b.after_check(n, now).wf(),
        b.after_check(n, now).rate == b.rate,
        b.after_check(n, now).burst == b.burst,
        b.after_check(n, now).last == if b.earned(now) > 0 { now } else { b.last },
        b.admits(n, now) ==> b.after_check(n, now).tokens + n * (NANOS_PER_SEC as nat)
            <= b.tokens + b.earned(now),
        !b.admits(n, now) ==> b.after_check(n, now).tokens <= b.tokens + b.earned(now),
{
}

/// Waiting is enough: where no more than the burst is asked for and the clock
/// has not run backwards, a request that was refused is met on any retry made
/// at least the returned number of nanoseconds later.
pub proof fn lemma_wait_suffices(b: Bucket, n: nat, now: nat, later: nat)
    requires
        b.wf(),
        b.rate > 0,
        n <= b.burst,
        b.last <= now,
        !b.admits(n, now),
        later >= now + b.wait_nanos(n, now),
    ensures
        b.after_check(n, now).admits(n, later),
{
    let b1 = b.after_check(n, now);
    let need = n * (NANOS_PER_SEC as nat);
    let deficit = need - b1.tokens;
    let wait = b.wait_nanos(n, now);
    let rate = b.rate as int;
    if now > b.last {
        assert((now - b.last) * b.rate > 0) by (nonlinear_arith)
            requires
                now > b.last,
                b.rate > 0,
        ;
    }
    assert(b1.last == now);
    assert(need <= b.capacity()) by (nonlinear_arith)
        requires
            need == n * (NANOS_PER_SEC as nat),
            b.capacity() == b.burst * (NANOS_PER_SEC as nat),
            n <= b.burst,
    ;
    lemma_fundamental_div_mod(deficit + rate - 1, rate);
    lemma_mod_bound(deficit + rate - 1, rate);
    assert(rate * wait >= deficit);
    assert((later - now) * rate >= wait * rate) by {
        lemma_mul_inequality(wait as int, later - now, rate);
    }
    assert(wait * rate == rate * wait) by (nonlinear_arith);
    if deficit > 0 {
        assert(wait > 0) by (nonlinear_arith)
            requires
                rate * wait >= deficit,
                deficit > 0,
                rate > 0,
        ;
        assert(b1.earned(later) == (later - now) * rate);
    }
}

/// Over any run of requests made no later than `end`, the tokens granted are
/// at most what the bucket held at the start plus what it earned up to `end`.
pub proof fn lemma_granted_bounded(b: Bucket, reqs: Seq<Request>, end: nat)
    requires
        b.wf(),
        b.last <= end,
        forall|i: int| 0 <= i < reqs.len() ==> (#[trigger] reqs[i]).now <= end,
    ensures
        granted(b, reqs) * (NANOS_PER_SEC as nat) + after_all(b, reqs).tokens <= b.tokens + (end
            - b.last) * b.rate,
        after_all(b, reqs).wf(),
    decreases reqs.len(),
{
    if reqs.len() > 0 {
        let first = reqs[0];
        let b1 = b.after_check(first.n, first.now);
        let rest = reqs.drop_first();
        lemma_check_conserves(b, first.n, first.now);
        assert forall|i: int| 0 <= i < rest.len() implies (#[trigger] rest[i]).now <= end by {
            assert(rest[i] == reqs[i + 1]);
        }
        lemma_granted_bounded(b1, rest, end);
        let got = if b.admits(first.n, first.now) { first.n } else { 0 };
        assert(granted(b, reqs) == got + granted(b1, rest));
        assert(granted(b, reqs) * (NANOS_PER_SEC as nat) == got * (NANOS_PER_SEC as nat) + granted(
            b1,
            rest,
        ) * (NANOS_PER_SEC as nat)) by {
            lemma_mul_is_distributive_add(
                NANOS_PER_SEC as int,
                got as int,
                granted(b1, rest) as int,
            );
            assert(granted(b, reqs) * (NANOS_PER_SEC as nat) == (NANOS_PER_SEC as nat) * granted(
                b,
                reqs,
            )) by (nonlinear_arith);
            assert(got * (NANOS_PER_SEC as nat) == (NANOS_PER_SEC as nat) * got)
                by (nonlinear_arith);
            assert(granted(b1, rest) * (NANOS_PER_SEC as nat) == (NANOS_PER_SEC as nat) * granted(
                b1,
                rest,
            )) by (nonlinear_arith);
        }
        // What the first request left behind, carried to `end`.
        assert(b1.tokens + got * (NANOS_PER_SEC as nat) + (end - b1.last) * b1.rate <= b.tokens
            + (end - b.last) * b.rate) by {
            if b.earned(first.now) > 0 {
                assert((first.now - b.last) * b.rate + (end - first.now) * b.rate == (end
                    - b.last) * b.rate) by (nonlinear_arith);
            }
        }
    }
}

/// In a window no longer than the time it takes to earn one burst, a bucket
/// grants at most two bursts: the one it held and the one it earned.
pub proof fn lemma_window_two_bursts(b: Bucket, reqs: Seq<Request>, end: nat)
    requires
        b.wf(),
        b.last <= end,
        forall|i: int| 0 <= i < reqs.len() ==> (#[trigger] reqs[i]).now <= end,
        (end - b.last) * b.rate <= b.capacity(),
    ensures
        granted(b, reqs) <= 2 * b.burst,
{
    lemma_granted_bounded(b, reqs, end);
    let g = granted(b, reqs);
    assert(g <= 2 * b.burst) by (nonlinear_arith)
        requires
            g * 1_000_000_000 <= 2 * (b.burst * 1_000_000_000),
    ;
}

/// One round of a sender that takes `n` tokens as soon as the bucket lets it:
/// at once if they are there at `now`, and otherwise after the wait that the
/// bucket asks for. The result is the bucket after the round and the time at
/// which the tokens were taken.
pub open spec fn eager_round(b: Bucket, n: nat, now: nat) -> (Bucket, nat) {
    if b.admits(n, now) {
        (b.after_check(n, now), now)
    } else {
        let later = now + b.wait_nanos(n, now);
        (b.after_check(n, now).after_check(n, later), later)
    }
}

/// `k` such rounds, one right after the other.
pub open spec fn eager_rounds(b: Bucket, n: nat, now: nat, k: nat) -> (Bucket, nat)
    decreases k,
{
    if k == 0 {
        (b, now)
    } else {
        let (b1, t1) = eager_round(b, n, now);
        eager_rounds(b1, n, t1, (k - 1) as nat)
    }
}

/// An attempt at a time by which the bucket has not earned more than it can
/// hold loses nothing: what is left plus what was granted is exactly what was
/// there plus what was earned.
pub proof fn lemma_check_exact(b: Bucket, n: nat, now: nat)
    requires
        b.wf(),
        b.tokens + b.earned(now) <= b.capacity(),
    ensures
        b.after_check(n, now).tokens + (if b.admits(n, now) {
            n * (NANOS_PER_SEC as nat)
        } else {
            0
        }) == b.tokens + b.earned(now),
{
}

/// A round of an eager sender takes its tokens and loses none, as long as the
/// bucket can hold the tokens asked for and what one more nanosecond earns:
/// the tokens taken and those left are exactly those held before and earned
/// up to the time of the taking.
pub proof fn lemma_eager_round(b: Bucket, n: nat, now: nat)
    requires
        b.wf(),
        b.rate > 0,
        b.last <= now,
        n * (NANOS_PER_SEC as nat) + b.rate <= b.capacity(),
        b.tokens + b.earned(now) <= b.capacity(),
    ensures
        ({
            let (after, taken_at) = eager_round(b, n, now);
            &&& after.wf()
            &&& after.rate == b.rate
            &&& after.burst == b.burst
            &&& after.last == taken_at
            &&& taken_at >= now
            &&& n * (NANOS_PER_SEC as nat) + after.tokens == b.tokens + (taken_at - b.last)
                * b.rate
        }),
{
    let need = n * (NANOS_PER_SEC as nat);
    let rate = b.rate as int;
    lemma_check_conserves(b, n, now);
    lemma_check_exact(b, n, now);
    if now > b.last {
        assert((now - b.last) * b.rate > 0) by (nonlinear_arith)
            requires
                now > b.last,
                b.rate > 0,
        ;
    }
    let b1 = b.after_check(n, now);
    assert(b1.last == now);
    if !b.admits(n, now) {
        let wait = b.wait_nanos(n, now);
        let later = now + wait;
        let deficit = need - b1.tokens;
        assert(need <= b.capacity());
        assert(need <= b.burst * (NANOS_PER_SEC as nat));
        assert(n <= b.burst) by (nonlinear_arith)
            requires
                n * 1_000_000_000 <= b.burst * 1_000_000_000,
        ;
        lemma_wait_suffices(b, n, now, later);
        lemma_fundamental_div_mod(deficit + rate - 1, rate);
        lemma_mod_bound(deficit + rate - 1, rate);
        assert(rate * wait <= deficit + rate - 1);
        assert(wait * rate == rate * wait) by (nonlinear_arith);
        assert(wait > 0) by (nonlinear_arith)
            requires
                rate * wait >= deficit,
                deficit > 0,
                rate > 0,
        ;
        assert(b1.earned(later) == wait * rate);
        lemma_check_conserves(b1, n, later);
        lemma_check_exact(b1, n, later);
        assert((now - b.last) * rate + wait * rate == (later - b.last) * rate)
            by (nonlinear_arith)
            requires
                later == now + wait,
        ;
    }
}

/// An eager sender moves exactly what the bucket earns: after `k` rounds of
/// `n` tokens each, the tokens taken and those left, with what was earned and
/// not yet added, are those held at the start and those earned since. So the
/// time for `k` rounds, multiplied by the rate, differs from the tokens taken
/// by no more than the capacity: in the long run the sender moves at the rate
/// of the bucket, neither faster nor slower.
pub proof fn lemma_eager_rounds(b: Bucket, n: nat, now: nat, k: nat)
    requires
        b.wf(),
        b.rate > 0,
        b.last <= now,
        n * (NANOS_PER_SEC as nat) + b.rate <= b.capacity(),
        b.tokens + b.earned(now) <= b.capacity(),
    ensures
        ({
            let (after, end) = eager_rounds(b, n, now, k);
            &&& after.wf()
            &&& end >= now
            &&& k * n * (NANOS_PER_SEC as nat) + after.tokens + after.earned(end) == b.tokens + (
            end - b.last) * b.rate
            &&& after.tokens + after.earned(end) <= b.capacity()
            &&& (end - b.last) * b.rate <= k * n * (NANOS_PER_SEC as nat) + b.capacity()
            &&& k * n * (NANOS_PER_SEC as nat) <= (end - b.last) * b.rate + b.capacity()
            &&& k > 0 ==> after.last == end
        }),
    decreases k,
{
    if k > 0 {
        lemma_eager_round(b, n, now);
        let (b1, t1) = eager_round(b, n, now);
        assert(b1.earned(t1) == 0);
        lemma_eager_rounds(b1, n, t1, (k - 1) as nat);
        let (after, end) = eager_rounds(b1, n, t1, (k - 1) as nat);
        let g = n * (NANOS_PER_SEC as nat);
        assert(k * n * (NANOS_PER_SEC as nat) == (k - 1) * n * (NANOS_PER_SEC as nat) + g)
            by (nonlinear_arith)
            requires
                k > 0,
                g == n * (NANOS_PER_SEC as nat),
        ;
        assert((t1 - b.last) * b.rate + (end - t1) * b.rate == (end - b.last) * b.rate)
            by (nonlinear_arith);
        if k == 1 {
            assert(after == b1 && end == t1);
        }
    } else {
        assert(k * n * (NANOS_PER_SEC as nat) == 0) by (nonlinear_arith)
            requires
                k == 0,
        ;
        if now > b.last {
            assert(b.earned(now) == (now - b.last) * b.rate);
        } else {
            assert((now - b.last) * b.rate == 0) by (nonlinear_arith)
                requires
                    now == b.last,
            ;
        }
    }
}

/// A round of an eager sender on any bucket that can hold the tokens asked
/// for: the sender never takes more than the bucket has earned, and what is
/// lost to the capacity is less than what one nanosecond earns, since the wait
/// is a whole number of nanoseconds.
pub proof fn lemma_eager_round_any_burst(b: Bucket, n: nat, now: nat)
    requires
        b.wf(),
        b.rate > 0,
        b.last <= now,
        n <= b.burst,
        b.tokens + b.earned(now) <= b.capacity(),
    ensures
        ({
            let (after, taken_at) = eager_round(b, n, now);
            &&& after.wf()
            &&& after.rate == b.rate
            &&& after.burst == b.burst
            &&& after.last == taken_at
            &&& taken_at >= now
            &&& n * (NANOS_PER_SEC as nat) + after.tokens <= b.tokens + (taken_at - b.last)
                * b.rate
            &&& b.tokens + (taken_at - b.last) * b.rate < n * (NANOS_PER_SEC as nat)
                + after.tokens + b.rate
        }),
{
    let need = n * (NANOS_PER_SEC as nat);
    let rate = b.rate as int;
    lemma_check_conserves(b, n, now);
    lemma_check_exact(b, n, now);
    if now > b.last {
        assert((now - b.last) * b.rate > 0) by (nonlinear_arith)
            requires
                now > b.last,
                b.rate > 0,
        ;
    }
    let b1 = b.after_check(n, now);
    assert(b1.last == now);
    if !b.admits(n, now) {
        let wait = b.wait_nanos(n, now);
        let later = now + wait;
        let deficit = need - b1.tokens;
        lemma_wait_suffices(b, n, now, later);
        lemma_fundamental_div_mod(deficit + rate - 1, rate);
        lemma_mod_bound(deficit + rate - 1, rate);
        assert(rate * wait <= deficit + rate - 1);
        assert(wait * rate == rate * wait) by (nonlinear_arith);
        assert(wait > 0) by (nonlinear_arith)
            requires
                rate * wait >= deficit,
                deficit > 0,
                rate > 0,
        ;
        assert(b1.earned(later) == wait * rate);
        lemma_check_conserves(b1, n, later);
        assert((now - b.last) * rate + wait * rate == (later - b.last) * rate)
            by (nonlinear_arith)
            requires
                later == now + wait,
        ;
    }
}

/// An eager sender on any bucket that can hold the tokens asked for moves at
/// the rate of the bucket: over `k` rounds of `n` tokens each it takes no more
/// than was held and earned, and falls short of that by no more than the
/// capacity and, for each round, what one nanosecond earns.
pub proof fn lemma_eager_rounds_any_burst(b: Bucket, n: nat, now: nat, k: nat)
    requires
        b.wf(),
        b.rate > 0,
        b.last <= now,
        n <= b.burst,
        b.tokens + b.earned(now) <= b.capacity(),
    ensures
        ({
            let (after, end) = eager_rounds(b, n, now, k);
            &&& after.wf()
            &&& end >= now
            &&& k * n * (NANOS_PER_SEC as nat) + after.tokens + after.earned(end) <= b.tokens + (
            end - b.last) * b.rate
            &&& b.tokens + (end - b.last) * b.rate <= k * n * (NANOS_PER_SEC as nat)
                + after.tokens + after.earned(end) + k * b.rate
            &&& after.tokens + after.earned(end) <= b.capacity()
            &&& k * n * (NANOS_PER_SEC as nat) <= (end - b.last) * b.rate + b.capacity()
            &&& (end - b.last) * b.rate <= k * n * (NANOS_PER_SEC as nat) + b.capacity() + k
                * b.rate
        }),
    decreases k,
{
    if k > 0 {
        lemma_eager_round_any_burst(b, n, now);
        let (b1, t1) = eager_round(b, n, now);
        assert(b1.earned(t1) == 0);
        lemma_eager_rounds_any_burst(b1, n, t1, (k - 1) as nat);
        let g = n * (NANOS_PER_SEC as nat);
        assert(k * n * (NANOS_PER_SEC as nat) == (k - 1) * n * (NANOS_PER_SEC as nat) + g)
            by (nonlinear_arith)
            requires
                k > 0,
                g == n * (NANOS_PER_SEC as nat),
        ;
        assert(k * b.rate == (k - 1) * b.rate + b.rate) by (nonlinear_arith)
            requires
                k > 0,
        ;
        let (after, end) = eager_rounds(b1, n, t1, (k - 1) as nat);
        assert((t1 - b.last) * b.rate + (end - t1) * b.rate == (end - b.last) * b.rate)
            by (nonlinear_arith);
    } else {
        assert(k * n * (NANOS_PER_SEC as nat) == 0) by (nonlinear_arith)
            requires
                k == 0,
        ;
        assert(k * b.rate == 0) by (nonlinear_arith)
            requires
                k == 0,
        ;
        if now > b.last {
            assert(b.earned(now) == (now - b.last) * b.rate);
        } else {
            assert((now - b.last) * b.rate == 0) by (nonlinear_arith)
                requires
                    now == b.last,
            ;
        }
    }
}

/// A bucket as four numbers: rate, burst, available billionths, time of the
/// last refill.
pub type RawBucket = (nat, nat, nat, nat);

impl Bucket {
    pub open spec fn raw(self) -> RawBucket {
        (self.rate, self.burst, self.tokens, self.last)
    }

    pub open spec fn of_raw(raw: RawBucket) -> Bucket {
        Bucket { rate: raw.0, burst: raw.1, tokens: raw.2, last: raw.3 }
    }
}

} // verus!
