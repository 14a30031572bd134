use vstd::prelude::*;
use vstd::string::StringExecFns;

verus! {

/// Permits refilled per second, and per millisecond in thousandths.
pub const RATE_PER_SECOND: u64 = 3;

/// Burst capacity of the shared limiter.
pub const BURST: u64 = 30;

/// Fixed delay before the single resend after a 429 response.
pub const RETRY_DELAY_MS: u64 = 15000;

/// Explicit token-bucket state shared by every outbound call. Tokens are held
/// in thousandths so that the refill per millisecond stays integral: one
/// permit costs 1000, and `rate_per_ms` thousandths arrive each millisecond
/// (equal to the whole permits that arrive each second).
pub struct TokenBucket {
    tokens_m: u64,
    capacity_m: u64,
    rate_per_ms: u64,
    last_ms: u64,
    start_ms: u64,
    granted: Ghost<nat>,
}

/// The token count after crediting the refill owed at clock reading `now`:
/// unchanged when no time has passed, else grown by the rate for the time
/// passed and capped at the capacity.
pub open spec fn refilled_tokens(b: TokenBucket, now: int) -> int {
    if now > b.last_seen() {
        let filled = b.tokens() + b.rate() * (now - b.last_seen());
        if filled > b.capacity() {
            b.capacity()
        } else {
            filled
        }
    } else {
        b.tokens()
    }
}

impl TokenBucket {
    pub closed spec fn tokens(&self) -> int {
        self.tokens_m as int
    }

    pub closed spec fn capacity(&self) -> int {
        self.capacity_m as int
    }

    pub closed spec fn rate(&self) -> int {
        self.rate_per_ms as int
    }

    pub closed spec fn last_seen(&self) -> int {
        self.last_ms as int
    }

    pub closed spec fn started(&self) -> int {
        self.start_ms as int
    }

    /// Permits handed out since construction.
    pub closed spec fn granted_count(&self) -> nat {
        self.granted@
    }

    /// The limiter invariant: the token count never leaves `0..=capacity`,
    /// and the permits granted so far are covered by the initial burst plus
    /// everything refilled since construction.
    pub open spec fn wf(&self) -> bool {
        &&& 1 <= self.rate()
        &&& 1000 <= self.capacity()
        &&& 0 <= self.tokens() <= self.capacity()
        &&& self.started() <= self.last_seen()
        &&& self.tokens() + 1000 * self.granted_count() <= self.capacity() + self.rate() * (
        self.last_seen() - self.started())
    }

    /// A fresh bucket, full to its burst capacity.
    pub fn new(rate_per_second: u64, burst: u64, now_ms: u64) -> (r: TokenBucket)
        requires
            1 <= rate_per_second,
            1 <= burst <= 1000000,
        ensures
            r.wf(),
            r.rate() == rate_per_second,
            r.capacity() == burst * 1000,
            r.tokens() == r.capacity(),
            r.granted_count() == 0,
            r.started() == now_ms,
            r.last_seen() == now_ms,
    {
        TokenBucket {
            tokens_m: burst * 1000,
            capacity_m: burst * 1000,
            rate_per_ms: rate_per_second,
            last_ms: now_ms,
            start_ms: now_ms,
            granted: Ghost(0),
        }
    }

    /// Credits the refill owed for the time passed since the last call. A
    /// clock reading not later than the last one credits nothing.
    fn refill(&mut self, now_ms: u64)
        requires
            old(self).wf(),
        ensures
            final(self).wf(),
            final(self).capacity() == old(self).capacity(),
            final(self).rate() == old(self).rate(),
            final(self).started() == old(self).started(),
            final(self).granted_count() == old(self).granted_count(),
            final(self).last_seen() == if now_ms > old(self).last_seen() {
                now_ms as int
            } else {
                old(self).last_seen()
            },
            final(self).tokens() == refilled_tokens(*old(self), now_ms as int),
            now_ms <= old(self).last_seen() ==> *final(self) == *old(self),
    {
        if now_ms > self.last_ms {
            let elapsed: u64 = now_ms - self.last_ms;
            proof {
                assert(0 <= (self.rate_per_ms as int) * (elapsed as int) <= (u64::MAX as int) * (
                u64::MAX as int)) by (nonlinear_arith)
                    requires
                        0 <= self.rate_per_ms <= u64::MAX,
                        0 <= elapsed <= u64::MAX,
                ;
            }
            let prod: u128 = (self.rate_per_ms as u128) * (elapsed as u128);
            let total: u128 = prod + (self.tokens_m as u128);
            proof {
                assert(self.rate() * (self.last_seen() - self.started()) + self.rate() * (
                elapsed as int) == self.rate() * (now_ms - self.started())) by (nonlinear_arith)
                    requires
                        now_ms == self.last_seen() + elapsed,
                ;
            }
            if total > self.capacity_m as u128 {
                self.tokens_m = self.capacity_m;
            } else {
                self.tokens_m = total as u64;
            }
            self.last_ms = now_ms;
        }
    }

    /// Asks for one permit at clock reading `now_ms`. The refill owed for
    /// the time passed is credited first; the permit is granted exactly when
    /// the refilled count covers one, and drops it by one. On refusal the
    /// state is the refilled state and the second component is exactly the
    /// wait, in milliseconds, until the deficit is refilled. Back-to-back
    /// calls beyond the burst are therefore always refused.
    pub fn try_acquire(&mut self, now_ms: u64) -> (r: (bool, u64))
        requires
            old(self).wf(),
        ensures
            final(self).wf(),
            final(self).capacity() == old(self).capacity(),
            final(self).rate() == old(self).rate(),
            final(self).started() == old(self).started(),
            final(self).last_seen() == if now_ms > old(self).last_seen() {
                now_ms as int
            } else {
                old(self).last_seen()
            },
            r.0 <==> refilled_tokens(*old(self), now_ms as int) >= 1000,
            r.0 ==> final(self).granted_count() == old(self).granted_count() + 1
                && final(self).tokens() == refilled_tokens(*old(self), now_ms as int) - 1000,
            !r.0 ==> final(self).granted_count() == old(self).granted_count()
                && final(self).tokens() == refilled_tokens(*old(self), now_ms as int) && 1 <= r.1
                && r.1 as int == (1000 - refilled_tokens(*old(self), now_ms as int) + old(
                self,
            ).rate() - 1) / old(self).rate(),
            // the long-run bound: everything granted so far is covered by the
            // burst plus the refill for the time observed so far
            1000 * final(self).granted_count() <= final(self).capacity() + final(self).rate() * (
            final(self).last_seen() - final(self).started()),
    {
        self.refill(now_ms);
        if self.tokens_m >= 1000 {
            self.tokens_m = self.tokens_m - 1000;
            proof {
                self.granted@ = self.granted@ + 1;
            }
            (true, 0)
        } else {
            let deficit: u64 = 1000 - self.tokens_m;
            let numer: u128 = (deficit as u128) + (self.rate_per_ms as u128) - 1;
            let w: u128 = numer / (self.rate_per_ms as u128);
            proof {
                let n = numer as int;
                let rr = self.rate_per_ms as int;
                assert(n / rr >= 1) by (nonlinear_arith)
                    requires
                        n >= rr,
                        rr >= 1,
                ;
                assert(n / rr <= 1000) by (nonlinear_arith)
                    requires
                        n <= 999 + rr,
                        rr >= 1,
                ;
            }
            (false, w as u64)
        }
    }
}

/// What the client does with the status of a send: accept the response, sleep
/// the fixed delay and resend the identical request once, or give up with
/// `RateLimitExceeded` on a second consecutive 429.
#[derive(Clone, Copy, Debug, PartialEq, Eq, Structural)]
pub enum SendStep {
    Accept,
    SleepThenResend { delay_ms: u64 },
    FailRateLimited,
}

/// The single retry-on-429 policy: the first 429 of a request is answered by
/// sleeping the fixed delay and resending once; a 429 on the resend is a
/// `RateLimitExceeded` failure; every other status is handed to the caller.
pub fn response_step(resend_already_made: bool, status: u16) -> (r: SendStep)
    ensures
        status == 429 && !resend_already_made ==> r == (SendStep::SleepThenResend {
            delay_ms: RETRY_DELAY_MS,
        }),
        status == 429 && resend_already_made ==> r == SendStep::FailRateLimited,
        status != 429 ==> r == SendStep::Accept,
{
    if status == 429 {
        if resend_already_made {
            SendStep::FailRateLimited
        } else {
            SendStep::SleepThenResend { delay_ms: RETRY_DELAY_MS }
        }
    } else {
        SendStep::Accept
    }
}

/// Shared state of the one client that every outbound call goes through: the
/// token bucket and the bearer token injected into each request.
pub struct RateLimitedClient {
    pub limiter: TokenBucket,
    pub user_token: String,
}

impl RateLimitedClient {
    /// A client with the configured rate and burst and a full bucket.
    pub fn new(user_token: String, now_ms: u64) -> (r: RateLimitedClient)
        ensures
            r.limiter.wf(),
            r.limiter.rate() == RATE_PER_SECOND,
            r.limiter.capacity() == BURST * 1000,
            r.limiter.tokens() == r.limiter.capacity(),
            r.limiter.granted_count() == 0,
            r.user_token@ == user_token@,
    {
        RateLimitedClient { limiter: TokenBucket::new(RATE_PER_SECOND, BURST, now_ms), user_token }
    }

    /// The authorization header value sent with every request.
    pub fn auth_header_value(&self) -> (r: String)
        ensures
            r@ == "Token "@ + self.user_token@,
    {
        String::from_str("Token ").concat(self.user_token.as_str())
    }
}

/// The throughput law of the bucket: at most the burst plus the refill for
/// the observed time has ever been granted, so over any long run the grant
/// rate cannot exceed the refill rate.
pub proof fn lemma_throughput_bound(b: &TokenBucket)
    requires
        b.wf(),
    ensures
        1000 * b.granted_count() <= b.capacity() + b.rate() * (b.last_seen() - b.started()),
{
}

} // verus!
