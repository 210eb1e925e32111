use vstd::prelude::*;

use crate::messages::ServerRelayMessage;

verus! {

/// A token bucket: each relayed message costs a token; a token comes back
/// every `refill_rate_ms` milliseconds, up to `max_tokens`. Times are
/// milliseconds of the relay's monotonic clock.
pub struct RateLimit {
    pub tokens: u32,
    pub max_tokens: u32,
    /// When the bucket last refilled.
    pub last_refill_ms: u64,
    pub refill_rate_ms: u64,
}

/// The milliseconds from the last refill to `now_ms` (none when `now_ms` is
/// earlier, as `Instant::duration_since` saturates).
pub open spec fn elapsed_since(l: RateLimit, now_ms: u64) -> int {
    if now_ms >= l.last_refill_ms {
        now_ms - l.last_refill_ms
    } else {
        0
    }
}

/// The tokens after refilling at `now_ms`: the whole refill periods since
/// the last refill (truncated to `u32`) are added, up to the bucket's size;
/// less than a period adds nothing.
pub open spec fn refilled(l: RateLimit, now_ms: u64) -> int {
    let e = elapsed_since(l, now_ms);
    if e >= l.refill_rate_ms {
        let sum = l.tokens + ((e / (l.refill_rate_ms as int)) as u32);
        if sum < l.max_tokens {
            sum
        } else {
            l.max_tokens as int
        }
    } else {
        l.tokens as int
    }
}

/// `post` is `pre` after a message checked at `now_ms`, with verdict
/// `allowed`: a refill period or more since the last refill restarts the
/// clock at `now_ms`; the message is allowed when a token is left, and
/// costs it.
pub open spec fn checked(pre: RateLimit, now_ms: u64, post: RateLimit, allowed: bool) -> bool {
    let t = refilled(pre, now_ms);
    &&& allowed == (t > 0)
    &&& post.tokens == (if allowed {
        t - 1
    } else {
        t
    })
    &&& post.max_tokens == pre.max_tokens
    &&& post.refill_rate_ms == pre.refill_rate_ms
    &&& post.last_refill_ms == (if elapsed_since(pre, now_ms) >= pre.refill_rate_ms {
        now_ms
    } else {
        pre.last_refill_ms
    })
}

impl RateLimit {
    /// A full bucket of `max_tokens` that earns a token back every
    /// `refill_rate_ms` milliseconds, its clock starting at `now_ms`.
    pub fn new(max_tokens: u32, refill_rate_ms: u64, now_ms: u64) -> (l: RateLimit)
        ensures
            l.tokens == max_tokens,
            l.max_tokens == max_tokens,
            l.refill_rate_ms == refill_rate_ms,
            l.last_refill_ms == now_ms,
    {
        RateLimit { tokens: max_tokens, max_tokens, last_refill_ms: now_ms, refill_rate_ms }
    }

    /// Checks a message arriving at `now_ms`; see [`checked`].
    pub fn check(&mut self, now_ms: u64) -> (allowed: bool)
        requires
            old(self).refill_rate_ms > 0,
        ensures
            checked(*old(self), now_ms, *final(self), allowed),
    {
        let elapsed_ms: u64 = if now_ms >= self.last_refill_ms {
            now_ms - self.last_refill_ms
        } else {
            0
        };
        if elapsed_ms >= self.refill_rate_ms {
            let refills = (elapsed_ms / self.refill_rate_ms) as u32;
            let sum: u64 = self.tokens as u64 + refills as u64;
            self.tokens = if sum < self.max_tokens as u64 {
                sum as u32
            } else {
                self.max_tokens
            };
            self.last_refill_ms = now_ms;
        }
        if self.tokens > 0 {
            self.tokens = self.tokens - 1;
            true
        } else {
            false
        }
    }
}

/// The bucket never holds more than its size, whenever a message comes.
pub proof fn lemma_tokens_bounded(pre: RateLimit, now_ms: u64, post: RateLimit, allowed: bool)
    requires
        pre.tokens <= pre.max_tokens,
        checked(pre, now_ms, post, allowed),
    ensures
        post.tokens <= post.max_tokens,
{
}

/// Within one refill period an empty bucket turns every message down.
pub proof fn lemma_empty_bucket_refuses(pre: RateLimit, now_ms: u64, post: RateLimit, allowed: bool)
    requires
        pre.tokens == 0,
        pre.refill_rate_ms > 0,
        now_ms < pre.last_refill_ms + pre.refill_rate_ms,
        checked(pre, now_ms, post, allowed),
    ensures
        !allowed,
        post.tokens == 0,
{
}

/// The number of messages let through in a run of verdicts.
pub open spec fn count_allowed(allowed: Seq<bool>) -> int
    decreases allowed.len(),
{
    if allowed.len() == 0 {
        0
    } else {
        count_allowed(allowed.drop_last()) + if allowed.last() {
            1int
        } else {
            0int
        }
    }
}

/// A run of calls of [`RateLimit::check`]: `states[i]` is the limit before
/// call `i`, made at `times[i]`, with verdict `allowed[i]`, and
/// `states[i + 1]` the limit after it.
pub open spec fn checked_run(states: Seq<RateLimit>, times: Seq<u64>, allowed: Seq<bool>) -> bool {
    &&& states.len() == allowed.len() + 1
    &&& times.len() == allowed.len()
    &&& forall|i: int|
        0 <= i < allowed.len() ==> #[trigger] checked(states[i], times[i], states[i + 1], allowed[i])
}

/// Whole periods add up: the periods in two stretches are no more than those
/// in a stretch at least as long as both.
proof fn lemma_periods_add(a: int, b: int, c: int, r: int)
    requires
        a >= 0,
        b >= 0,
        c >= a + b,
        r > 0,
    ensures
        a / r + b / r <= c / r,
{
    assert(a / r + b / r <= (a + b) / r) by (nonlinear_arith)
        requires
            a >= 0,
            b >= 0,
            r > 0,
    {
        assert(a == r * (a / r) + a % r);
        assert(b == r * (b / r) + b % r);
        assert(a + b == r * ((a + b) / r) + (a + b) % r);
    }
    assert((a + b) / r <= c / r) by (nonlinear_arith)
        requires
            a + b >= 0,
            c >= a + b,
            r > 0,
    {
        assert(a + b == r * ((a + b) / r) + (a + b) % r);
        assert(c == r * (c / r) + c % r);
    }
}

/// The bound of [`lemma_window_bound`] after the first `k` calls, with the
/// tokens still held counted in: the refill clock only moves to the time of
/// a call, and the tokens held plus the messages let through never exceed
/// the start's tokens plus the whole periods from the first refill to the
/// latest.
proof fn lemma_window_prefix(states: Seq<RateLimit>, times: Seq<u64>, allowed: Seq<bool>, k: int)
    requires
        checked_run(states, times, allowed),
        states[0].refill_rate_ms > 0,
        0 <= k <= allowed.len(),
    ensures
        states[k].refill_rate_ms == states[0].refill_rate_ms,
        states[k].last_refill_ms >= states[0].last_refill_ms,
        states[k].last_refill_ms == states[0].last_refill_ms || exists|j: int|
            0 <= j < k && states[k].last_refill_ms == times[j],
        states[k].tokens + count_allowed(allowed.take(k)) <= states[0].tokens + (
        states[k].last_refill_ms - states[0].last_refill_ms) / (states[0].refill_rate_ms as int),
    decreases k,
{
    let r = states[0].refill_rate_ms as int;
    let l0 = states[0].last_refill_ms as int;
    if k == 0 {
        assert(allowed.take(0) =~= Seq::<bool>::empty());
        assert((l0 - l0) / r == 0) by (nonlinear_arith)
            requires
                r > 0,
        ;
    } else {
        let j = k - 1;
        lemma_window_prefix(states, times, allowed, j);
        assert(checked(states[j], times[j], states[j + 1], allowed[j]));
        assert(allowed.take(k).drop_last() =~= allowed.take(j));
        let pre = states[j];
        let e = elapsed_since(pre, times[j]);
        if e >= pre.refill_rate_ms {
            let q: int = e / r;
            let q64: u64 = q as u64;
            assert(q == q64);
            assert((q64 as u32) <= q64) by (bit_vector);
            assert(refilled(pre, times[j]) <= pre.tokens + q);
            lemma_periods_add(pre.last_refill_ms - l0, e, times[j] - l0, r);
        } else {
            assert(refilled(pre, times[j]) == pre.tokens);
        }
    }
}

/// Over any stretch of the clock a rate limit lets through at most the
/// tokens it held at the start plus one message per whole refill period:
/// from a full bucket of 50 with a 33 ms period, at most 50 + T / 33 of the
/// calls made within T milliseconds of the last refill are allowed.
pub proof fn lemma_window_bound(
    states: Seq<RateLimit>,
    times: Seq<u64>,
    allowed: Seq<bool>,
    end: int,
)
    requires
        checked_run(states, times, allowed),
        states[0].refill_rate_ms > 0,
        states[0].last_refill_ms <= end,
        forall|i: int| 0 <= i < times.len() ==> times[i] <= end,
    ensures
        count_allowed(allowed) <= states[0].tokens + (end - states[0].last_refill_ms) / (
        states[0].refill_rate_ms as int),
{
    let n = allowed.len() as int;
    let r = states[0].refill_rate_ms as int;
    let l0 = states[0].last_refill_ms as int;
    lemma_window_prefix(states, times, allowed, n);
    assert(allowed.take(n) =~= allowed);
    if states[n].last_refill_ms != states[0].last_refill_ms {
        let w = choose|w: int| 0 <= w < n && states[n].last_refill_ms == times[w];
        assert(times[w] <= end);
    }
    lemma_periods_add(states[n].last_refill_ms - l0, 0, end - l0, r);
}

/// Within one refill period of the last refill, a bucket lets through
/// exactly the tokens it holds: the first that many calls are allowed and
/// every later one is refused.
pub proof fn lemma_burst_then_refusal(states: Seq<RateLimit>, times: Seq<u64>, allowed: Seq<bool>)
    requires
        checked_run(states, times, allowed),
        forall|i: int|
            0 <= i < times.len() ==> states[0].last_refill_ms <= #[trigger] times[i]
                < states[0].last_refill_ms + states[0].refill_rate_ms,
    ensures
        forall|i: int| 0 <= i < allowed.len() ==> #[trigger] allowed[i] == (i < states[0].tokens),
{
    assert forall|i: int| 0 <= i < allowed.len() implies #[trigger] allowed[i] == (i
        < states[0].tokens) by {
        lemma_burst_prefix(states, times, allowed, i);
        assert(checked(states[i], times[i], states[i + 1], allowed[i]));
    }
}

/// Before a refill period has passed, call `k` finds the bucket as it was
/// less `k` tokens (but never below empty), its clock unchanged.
proof fn lemma_burst_prefix(states: Seq<RateLimit>, times: Seq<u64>, allowed: Seq<bool>, k: int)
    requires
        checked_run(states, times, allowed),
        forall|i: int|
            0 <= i < times.len() ==> states[0].last_refill_ms <= #[trigger] times[i]
                < states[0].last_refill_ms + states[0].refill_rate_ms,
        0 <= k <= allowed.len(),
    ensures
        states[k].last_refill_ms == states[0].last_refill_ms,
        states[k].refill_rate_ms == states[0].refill_rate_ms,
        states[k].tokens == (if k < states[0].tokens {
            states[0].tokens - k
        } else {
            0
        }),
    decreases k,
{
    if k > 0 {
        let j = k - 1;
        lemma_burst_prefix(states, times, allowed, j);
        assert(checked(states[j], times[j], states[j + 1], allowed[j]));
        assert(states[0].last_refill_ms <= times[j]);
    }
}

/// What the relay does with a player's text message during a match.
#[derive(Clone, Copy, PartialEq, Eq, Structural, Debug)]
pub enum RelayVerdict {
    /// Wrap it in a `PeerEnvelope` and forward it to the opponent.
    Forward,
    /// Drop it: it is not a peer message.
    Skip,
    /// The player sent too fast: end the session.
    Disconnect,
}

/// The verdict on a message arriving at `now_ms`: the rate limit is checked
/// first (every text message costs a token, valid or not), then whether the
/// message is a peer message.
pub fn relay_verdict(limiter: &mut RateLimit, now_ms: u64, is_peer_message: bool) -> (v:
    RelayVerdict)
    requires
        old(limiter).refill_rate_ms > 0,
    ensures
        exists|allowed: bool| #[trigger]
            checked(*old(limiter), now_ms, *final(limiter), allowed) && v == (if !allowed {
                RelayVerdict::Disconnect
            } else if !is_peer_message {
                RelayVerdict::Skip
            } else {
                RelayVerdict::Forward
            }),
{
    let allowed = limiter.check(now_ms);
    if !allowed {
        RelayVerdict::Disconnect
    } else if !is_peer_message {
        RelayVerdict::Skip
    } else {
        RelayVerdict::Forward
    }
}

/// The envelope the relay forwards a peer message in.
pub fn envelope(payload: String) -> (m: ServerRelayMessage)
    ensures
        m == (ServerRelayMessage::PeerEnvelope { payload }),
{
    ServerRelayMessage::PeerEnvelope { payload }
}

} // verus!
