//! The rate-limited stream: token acquisition interposed between a caller's
//! readiness poll and the inner stream.
//!
//! The stream itself stays with the caller. This type decides, for each poll,
//! whether the inner operation may go ahead and with how many bytes, or how
//! long the caller has to wait for tokens.

use crate::traffic::bucket::lemma_check_conserves;
use crate::traffic::bucket::eager_round;
use crate::traffic::bucket::lemma_wait_suffices;
use crate::traffic::bucket::Bucket;
use crate::traffic::limiter::bucket_of;
use crate::traffic::limiter::Readiness;
use crate::traffic::limiter::SimpleLimiter;
use crate::traffic::bucket::NANOS_PER_SEC;
use vstd::prelude::*;

verus! {

/// The most bytes that one poll asks tokens for.
pub const CHUNK_SIZE: usize = 16384;

/// A wait for tokens that is under way.
#[derive(Clone, Copy, Debug, PartialEq, Eq, Structural)]
pub struct Permit {
    /// The tokens waited for.
    pub n: u32,
    /// The time before which asking again is pointless.
    pub wake_at: u64,
}

/// What a poll of one direction comes to.
#[derive(Clone, Copy, Debug, PartialEq, Eq, Structural)]
pub enum StreamStep {
    /// There is no room to read into, or nothing to write: report success with
    /// zero bytes.
    Done,
    /// Perform the inner operation on at most `max` bytes and report what it
    /// returns.
    Transfer { max: usize },
    /// Not ready: poll again at time `until` or later.
    Wait { until: u64 },
}

/// A wait is for at least one token and at most a chunk's worth.
pub open spec fn valid_permit(permit: Option<Permit>) -> bool {
    permit matches Some(p) ==> 0 < p.n <= CHUNK_SIZE
}

/// `a + b`, held at the largest `u64`.
pub open spec fn saturating(a: nat, b: nat) -> u64 {
    if a + b <= u64::MAX {
        (a + b) as u64
    } else {
        u64::MAX
    }
}

/// The inner operation on `amount` bytes of which at most `limit` are paid
/// for.
pub open spec fn transfer_of(amount: nat, limit: nat) -> StreamStep {
    if amount == 0 {
        StreamStep::Done
    } else if amount <= limit {
        StreamStep::Transfer { max: amount as usize }
    } else {
        StreamStep::Transfer { max: limit as usize }
    }
}

/// Asks bucket `b` for `n` tokens at time `now` on behalf of an operation on
/// `amount` bytes: where they are there, they are deducted and the operation
/// goes ahead on at most `n` bytes; where not, a wait is installed for as long
/// as the bucket needs to earn them.
pub open spec fn acquire(b: Bucket, n: u32, amount: nat, now: u64) -> (
    Option<Permit>,
    Bucket,
    StreamStep,
) {
    let after = b.after_check(n as nat, now as nat);
    if b.admits(n as nat, now as nat) {
        (None, after, transfer_of(amount, n as nat))
    } else {
        let until = saturating(now as nat, b.wait_nanos(n as nat, now as nat));
        (Some(Permit { n, wake_at: until }), after, StreamStep::Wait { until })
    }
}

/// One poll of one direction, for an operation on `amount` bytes at time
/// `now`.
///
/// A wait that is under way is honoured first: before its time nothing
/// happens, and from then on the tokens it waits for are asked for again.
/// Otherwise tokens are asked for the smaller of `amount` and the chunk size.
pub open spec fn poll_step(permit: Option<Permit>, b: Bucket, amount: nat, now: u64) -> (
    Option<Permit>,
    Bucket,
    StreamStep,
) {
    match permit {
        Some(p) => if now < p.wake_at {
            (permit, b, StreamStep::Wait { until: p.wake_at })
        } else {
            acquire(b, p.n, amount, now)
        },
        None => if amount == 0 {
            (None, b, StreamStep::Done)
        } else if amount <= CHUNK_SIZE {
            acquire(b, amount as u32, amount, now)
        } else {
            acquire(b, CHUNK_SIZE as u32, amount, now)
        },
    }
}

/// A poll of a direction that has no limiter: the inner operation goes ahead
/// on all of the bytes.
pub open spec fn unlimited_step(amount: nat) -> StreamStep {
    StreamStep::Transfer { max: amount as usize }
}

/// Whatever a poll comes to, the wait that it leaves under way, if any, is
/// for at least one token and at most a chunk's worth.
pub proof fn lemma_step_keeps_permit_valid(
    permit: Option<Permit>,
    b: Bucket,
    amount: nat,
    now: u64,
)
    requires
        valid_permit(permit),
    ensures
        valid_permit(poll_step(permit, b, amount, now).0),
{
}

/// A poll that lets the inner operation go ahead has paid for it: the bucket
/// was charged at least one token per byte, in that very poll or in the one
/// that installed the wait. No poll lets through more than a chunk, and only
/// one wait is under way at a time.
pub proof fn lemma_step_is_paid(permit: Option<Permit>, b: Bucket, amount: nat, now: u64)
    requires
        b.wf(),
        amount <= usize::MAX,
        valid_permit(permit),
    ensures
        ({
            let (next, after, step) = poll_step(permit, b, amount, now);
            &&& after.wf()
            &&& valid_permit(next)
            &&& step matches StreamStep::Transfer { max } ==> {
                &&& 0 < max <= amount
                &&& max <= CHUNK_SIZE
                &&& next is None
                &&& after.tokens + max * (NANOS_PER_SEC as nat) <= b.refill(now as nat).tokens
            }
            &&& step is Wait <==> next is Some
        }),
{
    let (next, after, step) = poll_step(permit, b, amount, now);
    let n: u32 = match permit {
        Some(p) => p.n,
        None => if amount <= CHUNK_SIZE {
            amount as u32
        } else {
            CHUNK_SIZE as u32
        },
    };
    lemma_check_conserves(b, n as nat, now as nat);
    if let StreamStep::Transfer { max } = step {
        assert(max <= n);
        assert(after == b.after_check(n as nat, now as nat));
        assert(max * (NANOS_PER_SEC as nat) <= n * (NANOS_PER_SEC as nat)) by (nonlinear_arith)
            requires
                max <= n,
        ;
    }
}

/// A stream that has to wait makes progress when it is polled again at the
/// time it was given, or later: where the bucket can hold a chunk, the poll
/// after a wait lets the operation go ahead, for as many bytes as were paid
/// for, unless the caller has nothing left to move.
pub proof fn lemma_wait_then_transfer(
    b: Bucket,
    amount: nat,
    now: u64,
    later: u64,
    amount_later: nat,
)
    requires
        b.wf(),
        b.rate > 0,
        b.last <= now,
        CHUNK_SIZE <= b.burst,
        0 < amount <= usize::MAX,
        0 < amount_later <= usize::MAX,
        poll_step(None, b, amount, now).2 matches StreamStep::Wait { until } && until <= later
            && until < u64::MAX,
    ensures
        ({
            let (permit, waiting, _) = poll_step(None, b, amount, now);
            let (next, after, step) = poll_step(permit, waiting, amount_later, later);
            &&& permit matches Some(p) && p.n == if amount <= CHUNK_SIZE {
                amount
            } else {
                CHUNK_SIZE as nat
            }
            &&& next is None
            &&& step == transfer_of(amount_later, permit->0.n as nat)
            &&& step is Transfer
        }),
{
    let n: u32 = if amount <= CHUNK_SIZE {
        amount as u32
    } else {
        CHUNK_SIZE as u32
    };
    let (permit, waiting, first) = poll_step(None, b, amount, now);
    assert(!b.admits(n as nat, now as nat));
    assert(waiting == b.after_check(n as nat, now as nat));
    let until = now + b.wait_nanos(n as nat, now as nat);
    assert(permit == Some(Permit { n, wake_at: until as u64 }));
    lemma_wait_suffices(b, n as nat, now as nat, later as nat);
}

/// A round of a caller that has `amount` bytes to move and comes back as soon
/// as it may: it polls at `now` and, where it is told to wait, again at the
/// time it was given. The result is the bucket after the round, the time of the
/// last poll, and what that poll came to.
pub open spec fn polled_round(b: Bucket, amount: nat, now: u64) -> (Bucket, u64, StreamStep) {
    let (permit, waiting, step) = poll_step(None, b, amount, now);
    match step {
        StreamStep::Wait { until } => {
            let (_, after, again) = poll_step(permit, waiting, amount, until);
            (after, until, again)
        },
        _ => (waiting, now, step),
    }
}

/// The tokens that a poll for `amount` bytes asks for.
pub open spec fn asked(amount: nat) -> nat {
    if amount <= CHUNK_SIZE {
        amount
    } else {
        CHUNK_SIZE as nat
    }
}

/// A caller that always has bytes to move and comes back as soon as it may is
/// an eager sender on the bucket: each of its rounds moves the bytes asked
/// for, at the time and with the bucket of an eager round. So what holds of
/// eager senders holds of a stream whose bucket can hold a chunk: it neither
/// stalls nor exceeds the rate.
pub proof fn lemma_polled_round_is_eager(b: Bucket, amount: nat, now: u64)
    requires
        b.wf(),
        b.rate > 0,
        b.last <= now,
        CHUNK_SIZE <= b.burst,
        0 < amount <= usize::MAX,
        now + b.wait_nanos(asked(amount), now as nat) <= u64::MAX,
    ensures
        polled_round(b, amount, now) == (
            eager_round(b, asked(amount), now as nat).0,
            eager_round(b, asked(amount), now as nat).1 as u64,
            StreamStep::Transfer { max: asked(amount) as usize },
        ),
{
    let n = asked(amount);
    if !b.admits(n, now as nat) {
        let later = now as nat + b.wait_nanos(n, now as nat);
        lemma_wait_suffices(b, n, now as nat, later);
    }
}

/// The mathematical state of a rate-limited stream.
pub struct Throttle {
    pub read_limiter: Option<Bucket>,
    pub write_limiter: Option<Bucket>,
    pub read_permit: Option<Permit>,
    pub write_permit: Option<Permit>,
}

/// The token side of a rate-limited duplex stream: a bucket for each
/// direction that has one, and the wait that is under way in each direction.
pub struct RateLimitedStream {
    read_limiter: Option<SimpleLimiter>,
    write_limiter: Option<SimpleLimiter>,
    read_permit_fut: Option<Permit>,
    write_permit_fut: Option<Permit>,
}

/// A limiter that is present earns tokens.
pub open spec fn earns(limiter: Option<SimpleLimiter>) -> bool {
    limiter matches Some(l) ==> l@.rate > 0
}

impl View for RateLimitedStream {
    type V = Throttle;

    closed spec fn view(&self) -> Throttle {
        Throttle {
            read_limiter: bucket_of(self.read_limiter),
            write_limiter: bucket_of(self.write_limiter),
            read_permit: self.read_permit_fut,
            write_permit: self.write_permit_fut,
        }
    }
}

impl RateLimitedStream {
    #[verifier::type_invariant]
    spec fn inv(self) -> bool {
        &&& earns(self.read_limiter)
        &&& earns(self.write_limiter)
        &&& valid_permit(self.read_permit_fut)
        &&& valid_permit(self.write_permit_fut)
    }

    /// A stream with the given buckets and no wait under way. A bucket that
    /// earns nothing could never end a wait, so each one has a rate.
    pub fn new(
        read_limiter: Option<SimpleLimiter>,
        write_limiter: Option<SimpleLimiter>,
    ) -> (stream: RateLimitedStream)
        requires
            earns(read_limiter),
            earns(write_limiter),
        ensures
            stream@ == (Throttle {
                read_limiter: bucket_of(read_limiter),
                write_limiter: bucket_of(write_limiter),
                read_permit: None,
                write_permit: None,
            }),
    {
        RateLimitedStream {
            read_limiter,
            write_limiter,
            read_permit_fut: None,
            write_permit_fut: None,
        }
    }

    /// The bucket that reads pay into, as it stands.
    pub fn read_limiter(&self) -> (limiter: Option<SimpleLimiter>)
        ensures
            bucket_of(limiter) == self@.read_limiter,
            earns(limiter),
    {
        proof {
            use_type_invariant(self);
        }
        self.read_limiter
    }

    /// The bucket that writes pay into, as it stands.
    pub fn write_limiter(&self) -> (limiter: Option<SimpleLimiter>)
        ensures
            bucket_of(limiter) == self@.write_limiter,
            earns(limiter),
    {
        proof {
            use_type_invariant(self);
        }
        self.write_limiter
    }

    /// Replaces the bucket that reads pay into, as when other streams have
    /// paid into it meanwhile.
    pub fn set_read_limiter(&mut self, limiter: Option<SimpleLimiter>)
        requires
            earns(limiter),
        ensures
            final(self)@ == (Throttle { read_limiter: bucket_of(limiter), ..old(self)@ }),
    {
        proof {
            use_type_invariant(&*self);
        }
        self.read_limiter = limiter;
    }

    /// Replaces the bucket that writes pay into.
    pub fn set_write_limiter(&mut self, limiter: Option<SimpleLimiter>)
        requires
            earns(limiter),
        ensures
            final(self)@ == (Throttle { write_limiter: bucket_of(limiter), ..old(self)@ }),
    {
        proof {
            use_type_invariant(&*self);
        }
        self.write_limiter = limiter;
    }

    fn acquire(limiter: SimpleLimiter, n: u32, amount: usize, now: u64) -> (res: (
        Option<Permit>,
        SimpleLimiter,
        StreamStep,
    ))
        requires
            limiter@.rate > 0,
        ensures
            (res.0, res.1@, res.2) == acquire(limiter@, n, amount as nat, now),
            res.1@.rate > 0,
    {
        let mut limiter = limiter;
        match limiter.until_n_ready(n, now) {
            Readiness::Ready => {
                let step = if amount == 0 {
                    StreamStep::Done
                } else if amount <= n as usize {
                    StreamStep::Transfer { max: amount }
                } else {
                    StreamStep::Transfer { max: n as usize }
                };
                (None, limiter, step)
            },
            Readiness::RetryAfter(nanos) => {
                let until: u64 = now.saturating_add(nanos);
                (Some(Permit { n, wake_at: until }), limiter, StreamStep::Wait { until })
            },
        }
    }

    fn step(permit: Option<Permit>, limiter: SimpleLimiter, amount: usize, now: u64) -> (res: (
        Option<Permit>,
        SimpleLimiter,
        StreamStep,
    ))
        requires
            limiter@.rate > 0,
        ensures
            (res.0, res.1@, res.2) == poll_step(permit, limiter@, amount as nat, now),
            res.1@.rate > 0,
    {
        match permit {
            Some(p) => {
                if now < p.wake_at {
                    (permit, limiter, StreamStep::Wait { until: p.wake_at })
                } else {
                    Self::acquire(limiter, p.n, amount, now)
                }
            },
            None => {
                if amount == 0 {
                    (None, limiter, StreamStep::Done)
                } else if amount <= CHUNK_SIZE {
                    Self::acquire(limiter, amount as u32, amount, now)
                } else {
                    Self::acquire(limiter, CHUNK_SIZE as u32, amount, now)
                }
            },
        }
    }

    /// One poll for reading into `remaining` bytes of space at time `now`.
    pub fn poll_read(&mut self, remaining: usize, now: u64) -> (step: StreamStep)
        ensures
            final(self)@.write_limiter == old(self)@.write_limiter,
            final(self)@.write_permit == old(self)@.write_permit,
            valid_permit(old(self)@.read_permit),
            old(self)@.read_limiter matches Some(b) ==> b.wf(),
            match old(self)@.read_limiter {
                None => step == unlimited_step(remaining as nat) && final(self)@ == old(self)@,
                Some(b) => final(self)@.read_limiter matches Some(after) && (
                    final(self)@.read_permit,
                    after,
                    step,
                ) == poll_step(old(self)@.read_permit, b, remaining as nat, now),
            },
    {
        proof {
            use_type_invariant(&*self);
        }
        match self.read_limiter {
            None => StreamStep::Transfer { max: remaining },
            Some(limiter) => {
                proof {
                    limiter.lemma_wf();
                    lemma_step_keeps_permit_valid(
                        self.read_permit_fut,
                        limiter@,
                        remaining as nat,
                        now,
                    );
                }
                let (permit, limiter, step) = Self::step(
                    self.read_permit_fut,
                    limiter,
                    remaining,
                    now,
                );
                self.read_limiter = Some(limiter);
                self.read_permit_fut = permit;
                step
            },
        }
    }

    /// One poll for writing `len` bytes at time `now`.
    pub fn poll_write(&mut self, len: usize, now: u64) -> (step: StreamStep)
        ensures
            final(self)@.read_limiter == old(self)@.read_limiter,
            final(self)@.read_permit == old(self)@.read_permit,
            valid_permit(old(self)@.write_permit),
            old(self)@.write_limiter matches Some(b) ==> b.wf(),
            match old(self)@.write_limiter {
                None => step == unlimited_step(len as nat) && final(self)@ == old(self)@,
                Some(b) => final(self)@.write_limiter matches Some(after) && (
                    final(self)@.write_permit,
                    after,
                    step,
                ) == poll_step(old(self)@.write_permit, b, len as nat, now),
            },
    {
        proof {
            use_type_invariant(&*self);
        }
        match self.write_limiter {
            None => StreamStep::Transfer { max: len },
            Some(limiter) => {
                proof {
                    limiter.lemma_wf();
                    lemma_step_keeps_permit_valid(
                        self.write_permit_fut,
                        limiter@,
                        len as nat,
                        now,
                    );
                }
                let (permit, limiter, step) = Self::step(
                    self.write_permit_fut,
                    limiter,
                    len,
                    now,
                );
                self.write_limiter = Some(limiter);
                self.write_permit_fut = permit;
                step
            },
        }
    }
}

} // verus!
