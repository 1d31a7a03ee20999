//! Restart delays: exponential growth up to a cap, spread by jitter.
use std::time::Duration;

use vstd::arithmetic::power2;
use vstd::prelude::*;

use crate::service::RestartPolicy;
use crate::util;

verus! {

/// The whole milliseconds in that many nanoseconds, as far as 64 bits can count them.
pub open spec fn whole_millis(nanos: nat) -> u64 {
    let ms = nanos / util::nanos_per_milli();
    if ms > u64::MAX {
        u64::MAX
    } else {
        ms as u64
    }
}

/// The delay before restart `attempt`, counted from 1 and before jitter:
/// `min * 2^(attempt-1)`, capped at `max`.
pub open spec fn plain_backoff(min: nat, max: nat, attempt: nat) -> nat {
    let doublings: nat = if attempt == 0 {
        0
    } else {
        (attempt - 1) as nat
    };
    let grown = min * power2::pow2(doublings);
    if grown > max {
        max
    } else {
        grown
    }
}

/// The delay before restart `attempt` under `policy` in nanoseconds, before jitter.
pub open spec fn policy_backoff<J>(policy: RestartPolicy<J>, attempt: nat) -> nat {
    plain_backoff(
        util::duration_nanos(policy.min_backoff),
        util::duration_nanos(policy.max_backoff),
        attempt,
    )
}

/// The largest number that may be drawn for a spread of `spread` in either
/// direction.
pub open spec fn draw_limit(spread: u64) -> nat {
    if 2 * spread > u64::MAX {
        u64::MAX as nat
    } else {
        (2 * spread) as nat
    }
}

/// A delay of so many nanoseconds moved down by `spread` milliseconds and up again by
/// the milliseconds drawn, within what a duration can hold.
pub open spec fn spread_out(nanos: nat, spread: u64, drawn: u64) -> nat {
    let down = spread * util::nanos_per_milli();
    let low = if nanos > down {
        (nanos - down) as nat
    } else {
        0
    };
    let moved = low + drawn * util::nanos_per_milli();
    if moved > util::max_nanos() {
        util::max_nanos()
    } else {
        moved as nat
    }
}

/// `backoff` is a delay that restart `attempt` can have under `policy`: the plain
/// one, moved by up to the spread that `spread_of` gives for its milliseconds.
pub open spec fn is_backoff<J, F: Fn(&J, u64) -> u64>(
    policy: RestartPolicy<J>,
    attempt: u32,
    spread_of: &F,
    backoff: Duration,
) -> bool {
    let plain = policy_backoff(policy, attempt as nat);
    exists|spread: u64, drawn: u64|
        #![trigger spread_out(plain, spread, drawn)]
        {
            &&& call_ensures(spread_of, (&policy.jitter, whole_millis(plain)), spread)
            &&& drawn <= draw_limit(spread)
            &&& util::duration_nanos(backoff) == spread_out(plain, spread, drawn)
        }
}

/// Exponential growth of a restart delay, before jitter.
///
/// `attempt` is 1-indexed (1 for the first restart attempt).
pub fn exponential_backoff<J>(policy: &RestartPolicy<J>, attempt: u32) -> (delay: Duration)
    ensures
        util::duration_nanos(delay) == policy_backoff(*policy, attempt as nat),
        util::duration_nanos(delay) <= util::max_nanos(),
{
    let min: u128 = util::as_nanos(policy.min_backoff);
    let max: u128 = util::as_nanos(policy.max_backoff);
    let doublings: u32 = if attempt == 0 {
        0
    } else {
        attempt - 1
    };
    util::from_nanos(capped_doubling(min, max, doublings))
}

/// `base * 2^doublings`, capped at `max`.
fn capped_doubling(base: u128, max: u128, doublings: u32) -> (grown: u128)
    requires
        max <= util::max_nanos(),
    ensures
        grown == if base * power2::pow2(doublings as nat) > max {
            max as int
        } else {
            base * power2::pow2(doublings as nat)
        },
{
    if base == 0 {
        assert(0 * power2::pow2(doublings as nat) == 0) by (nonlinear_arith);
        return 0;
    }
    proof {
        power2::lemma2_to64();
        assert(base * 1 == base);
    }
    let mut grown: u128 = base;
    let mut done: u32 = 0;
    while done < doublings && grown <= max
        invariant
            done <= doublings,
            base > 0,
            max <= util::max_nanos(),
            grown == base * power2::pow2(done as nat),
        decreases doublings - done,
    {
        proof {
            let factor = power2::pow2(done as nat);
            power2::lemma_pow2_unfold((done + 1) as nat);
            assert(base * (2 * factor) == 2 * (base * factor)) by (nonlinear_arith);
        }
        grown = grown * 2;
        done += 1;
    }
    if grown > max {
        proof {
            let now = power2::pow2(done as nat);
            let then = power2::pow2(doublings as nat);
            if done < doublings {
                power2::lemma_pow2_strictly_increases(done as nat, doublings as nat);
            }
            assert(base * now <= base * then) by (nonlinear_arith)
                requires
                    now <= then,
                    base > 0,
            ;
        }
        max
    } else {
        grown
    }
}

/// The whole milliseconds of a duration, as far as 64 bits can count them.
fn millis_of(d: Duration) -> (ms: u64)
    ensures
        ms == whole_millis(util::duration_nanos(d)),
{
    let ms: u128 = util::as_nanos(d) / 1_000_000;
    if ms > u64::MAX as u128 {
        u64::MAX
    } else {
        ms as u64
    }
}

/// [`fastrand::u64`] over `0..=limit`: some number up to `limit`. Which one is
/// left to chance.
#[verifier::external_body]
fn random_up_to(limit: u64) -> (drawn: u64)
    ensures
        drawn <= limit,
{
    fastrand::u64(0..=limit)
}

/// The largest number that is drawn for a spread of `spread` in either direction.
pub fn draw_range(spread: u64) -> (limit: u64)
    ensures
        limit == draw_limit(spread),
{
    if spread > u64::MAX / 2 {
        u64::MAX
    } else {
        spread * 2
    }
}

/// Move a delay by what was drawn: down by `spread` milliseconds, then up by the
/// milliseconds drawn.
pub fn apply_jitter(delay: Duration, spread: u64, drawn: u64) -> (moved: Duration)
    ensures
        util::duration_nanos(moved) == spread_out(util::duration_nanos(delay), spread, drawn),
{
    let nanos: u128 = util::as_nanos(delay);
    let down: u128 = spread as u128 * 1_000_000;
    let up: u128 = drawn as u128 * 1_000_000;
    let low: u128 = if nanos > down {
        nanos - down
    } else {
        0
    };
    let longest: u128 = u64::MAX as u128 * 1_000_000_000 + 999_999_999;
    if low + up > longest {
        util::from_nanos(longest)
    } else {
        util::from_nanos(low + up)
    }
}

/// Compute the next backoff using exponential growth + jitter.
///
/// `attempt` is 1-indexed (1 for the first restart attempt). `spread_of` says how
/// many milliseconds a jitter ratio may move a delay of so many milliseconds in
/// either direction.
pub fn compute_backoff<J, F: Fn(&J, u64) -> u64>(
    policy: &RestartPolicy<J>,
    attempt: u32,
    spread_of: &F,
) -> (backoff: Duration)
    requires
        forall|ms: u64| call_requires(spread_of, (&policy.jitter, ms)),
    ensures
        is_backoff(*policy, attempt, spread_of, backoff),
{
    let delay: Duration = exponential_backoff(policy, attempt);
    let spread: u64 = spread_of(&policy.jitter, millis_of(delay));
    let drawn: u64 = if spread > 0 {
        random_up_to(draw_range(spread))
    } else {
        0
    };
    apply_jitter(delay, spread, drawn)
}

/// Without jitter, delays never shrink from one attempt to the next.
pub proof fn law_backoff_grows(min: nat, max: nat, attempt: nat)
    ensures
        plain_backoff(min, max, attempt) <= plain_backoff(min, max, attempt + 1),
{
    if attempt >= 1 {
        let factor = power2::pow2((attempt - 1) as nat);
        power2::lemma_pow2_unfold(attempt);
        assert(min * factor <= min * (2 * factor)) by (nonlinear_arith);
    }
}

/// The first delay is the minimum, each further one twice the one before it,
/// until the cap is met; from there on it stays at the cap.
pub proof fn law_backoff_doubles_up_to_cap(min: nat, max: nat, attempt: nat)
    requires
        attempt >= 1,
    ensures
        plain_backoff(min, max, attempt) <= max,
        min <= max ==> plain_backoff(min, max, 1) == min,
        2 * plain_backoff(min, max, attempt) <= max ==> plain_backoff(
            min,
            max,
            attempt + 1,
        ) == 2 * plain_backoff(min, max, attempt),
        2 * plain_backoff(min, max, attempt) > max ==> plain_backoff(
            min,
            max,
            attempt + 1,
        ) == max,
{
    power2::lemma2_to64();
    let factor = power2::pow2((attempt - 1) as nat);
    power2::lemma_pow2_unfold(attempt);
    assert(power2::pow2(attempt) == 2 * factor);
    assert(min * (2 * factor) == 2 * (min * factor)) by (nonlinear_arith);
    let one = power2::pow2(0);
    assert(min * one == min) by (nonlinear_arith)
        requires
            one == 1,
    ;
}

/// Jitter moves a delay by at most the spread in either direction, and not at all
/// where there is no spread.
pub proof fn law_jitter_stays_in_bounds(nanos: nat, spread: u64, drawn: u64)
    requires
        spread * util::nanos_per_milli() <= nanos,
        nanos + spread * util::nanos_per_milli() <= util::max_nanos(),
        drawn <= draw_limit(spread),
    ensures
        nanos - spread * util::nanos_per_milli() <= spread_out(nanos, spread, drawn),
        spread_out(nanos, spread, drawn) <= nanos + spread * util::nanos_per_milli(),
        spread == 0 ==> spread_out(nanos, spread, drawn) == nanos,
{
}

} // verus!
