//! How long a service waits before it is started again.
use std::time::Duration;

use vstd::prelude::*;

use crate::runtime::backoff;
use crate::runtime::backoff::{
    apply_jitter, compute_backoff, draw_range, exponential_backoff,
};
use crate::service::{ExhaustedAction, RestartPolicy};
use crate::util;

verus! {

/// Before jitter, the first delay is the minimum, or the maximum where that is less,
/// whatever else the policy says. A delay for no attempt is as the first.
pub proof fn law_first_delay_is_the_minimum<J>(
    policy: RestartPolicy<J>,
    attempt: u32,
    delay: Duration,
)
    requires
        attempt <= 1,
        call_ensures(exponential_backoff::<J>, (&policy, attempt), delay),
    ensures
        util::duration_nanos(policy.min_backoff) <= util::duration_nanos(policy.max_backoff)
            ==> util::duration_nanos(delay) == util::duration_nanos(policy.min_backoff),
        util::duration_nanos(policy.min_backoff) > util::duration_nanos(policy.max_backoff)
            ==> util::duration_nanos(delay) == util::duration_nanos(policy.max_backoff),
{
    let min = util::duration_nanos(policy.min_backoff);
    let max = util::duration_nanos(policy.max_backoff);
    backoff::law_backoff_doubles_up_to_cap(min, max, 1);
    vstd::arithmetic::power2::lemma2_to64();
    assert(min * 1 == min);
}

/// Before jitter, each delay is twice the one before it, or the maximum where that is
/// less, whatever else the policy says.
pub proof fn law_each_delay_is_twice_the_last<J>(
    policy: RestartPolicy<J>,
    attempt: u32,
    delay: Duration,
    next: Duration,
)
    requires
        1 <= attempt < u32::MAX,
        call_ensures(exponential_backoff::<J>, (&policy, attempt), delay),
        call_ensures(exponential_backoff::<J>, (&policy, (attempt + 1) as u32), next),
    ensures
        2 * util::duration_nanos(delay) <= util::duration_nanos(policy.max_backoff)
            ==> util::duration_nanos(next) == 2 * util::duration_nanos(delay),
        2 * util::duration_nanos(delay) > util::duration_nanos(policy.max_backoff)
            ==> util::duration_nanos(next) == util::duration_nanos(policy.max_backoff),
        util::duration_nanos(delay) <= util::duration_nanos(policy.max_backoff),
        util::duration_nanos(delay) <= util::duration_nanos(next),
{
    backoff::law_backoff_doubles_up_to_cap(
        util::duration_nanos(policy.min_backoff),
        util::duration_nanos(policy.max_backoff),
        attempt as nat,
    );
}

/// Before jitter, a delay depends on the bounds of the policy and the attempt alone.
pub proof fn law_delay_depends_on_bounds_alone<J, K>(
    policy: RestartPolicy<J>,
    other: RestartPolicy<K>,
    attempt: u32,
    delay: Duration,
    same: Duration,
)
    requires
        util::duration_nanos(policy.min_backoff) == util::duration_nanos(other.min_backoff),
        util::duration_nanos(policy.max_backoff) == util::duration_nanos(other.max_backoff),
        call_ensures(exponential_backoff::<J>, (&policy, attempt), delay),
        call_ensures(exponential_backoff::<K>, (&other, attempt), same),
    ensures
        util::duration_nanos(delay) == util::duration_nanos(same),
{
}

/// `backoff` lies within `spread` milliseconds of `delay` in either direction; a delay
/// that cannot be moved down so far is moved down to nothing and up by at most twice that.
pub open spec fn lies_within(delay: Duration, spread: u64, backoff: Duration) -> bool {
    let plain = util::duration_nanos(delay);
    let moved = util::duration_nanos(backoff);
    let reach = spread * 1_000_000;
    &&& reach <= plain ==> moved <= plain + reach
    &&& reach > plain ==> moved <= 2 * reach
    &&& plain + reach <= u64::MAX * 1_000_000_000 + 999_999_999 ==> plain - reach <= moved
    &&& spread == 0 ==> moved == plain
}

/// `ms` are the whole milliseconds of `delay`, as far as 64 bits can count them.
pub open spec fn counts_millis(delay: Duration, ms: u64) -> bool {
    let plain = util::duration_nanos(delay);
    &&& ms * 1_000_000 <= plain
    &&& ms < u64::MAX ==> plain < (ms + 1) * 1_000_000
}

pub(crate) proof fn lemma_backoff_lies_within<J, F: Fn(&J, u64) -> u64>(
    policy: RestartPolicy<J>,
    attempt: u32,
    spread_of: &F,
    delay: Duration,
    delayed: Duration,
)
    requires
        call_ensures(exponential_backoff::<J>, (&policy, attempt), delay),
        backoff::is_backoff(policy, attempt, spread_of, delayed),
    ensures
        exists|ms: u64, spread: u64| #[trigger]
            call_ensures(spread_of, (&policy.jitter, ms), spread) && counts_millis(delay, ms)
                && lies_within(delay, spread, delayed),
{
    let plain = backoff::policy_backoff(policy, attempt as nat);
    let (spread, drawn) = choose|spread: u64, drawn: u64|
        #![trigger backoff::spread_out(plain, spread, drawn)]
        {
            &&& call_ensures(spread_of, (&policy.jitter, backoff::whole_millis(plain)), spread)
            &&& drawn <= backoff::draw_limit(spread)
            &&& util::duration_nanos(delayed) == backoff::spread_out(plain, spread, drawn)
        };
    let ms = backoff::whole_millis(plain);
    assert(counts_millis(delay, ms));
    assert(lies_within(delay, spread, delayed));
}

/// A restart delay lies within the spread of the one before jitter, and the spread is what
/// is given for that delay's whole milliseconds. Without a spread it is that very delay.
pub proof fn law_jittered_delay_lies_within_the_spread<J, F: Fn(&J, u64) -> u64>(
    policy: RestartPolicy<J>,
    attempt: u32,
    spread_of: &F,
    delay: Duration,
    jittered: Duration,
)
    requires
        call_ensures(exponential_backoff::<J>, (&policy, attempt), delay),
        call_ensures(compute_backoff::<J, F>, (&policy, attempt, spread_of), jittered),
    ensures
        exists|ms: u64, spread: u64| #[trigger]
            call_ensures(spread_of, (&policy.jitter, ms), spread) && counts_millis(delay, ms)
                && lies_within(delay, spread, jittered),
        (forall|ms: u64, spread: u64| #[trigger]
            call_ensures(spread_of, (&policy.jitter, ms), spread) ==> spread == 0)
            ==> util::duration_nanos(jittered) == util::duration_nanos(delay),
{
    lemma_backoff_lies_within(policy, attempt, spread_of, delay, jittered);
}

/// What is drawn moves a delay up from where the spread moves it down to: each millisecond
/// drawn by one, and a draw of the spread itself back to where it was.
pub proof fn law_draw_moves_a_delay(delay: Duration, spread: u64, drawn: u64, moved: Duration)
    requires
        call_ensures(apply_jitter, (delay, spread, drawn), moved),
    ensures
        ({
            let plain = util::duration_nanos(delay);
            let down = spread * 1_000_000;
            let up = drawn * 1_000_000;
            let longest = u64::MAX * 1_000_000_000 + 999_999_999;
            &&& down <= plain && plain - down + up <= longest ==> util::duration_nanos(moved) + down
                == plain + up
            &&& down <= plain && plain - down + up > longest ==> util::duration_nanos(moved)
                == longest
            &&& down > plain ==> util::duration_nanos(moved) == up
            &&& down <= plain <= longest && drawn == spread ==> util::duration_nanos(moved) == plain
        }),
{
}

/// A policy made from a jitter alone waits from a quarter of a second up to half a minute,
/// without end; one made from bounds has those bounds.
pub proof fn law_policies_are_as_they_are_made<J>(
    jitter: J,
    min: Duration,
    max: Duration,
    plain: RestartPolicy<J>,
    bounded: RestartPolicy<J>,
)
    requires
        call_ensures(RestartPolicy::<J>::with_jitter, (jitter,), plain),
        call_ensures(RestartPolicy::<J>::with_bounds, (min, max, jitter), bounded),
    ensures
        util::duration_nanos(plain.min_backoff) == 250_000_000,
        util::duration_nanos(plain.max_backoff) == 30_000_000_000,
        plain.jitter == jitter && bounded.jitter == jitter,
        plain.max_retries is None && bounded.max_retries is None,
        plain.on_exhausted == ExhaustedAction::ShutdownRuntime,
        bounded.on_exhausted == ExhaustedAction::ShutdownRuntime,
        bounded.min_backoff == min && bounded.max_backoff == max,
{
}

/// The smallest draw moves a delay down by the whole spread, and the largest up by the whole
/// spread, as far as the delay and a duration allow.
pub proof fn law_draws_reach_as_far_up_as_down(
    delay: Duration,
    spread: u64,
    limit: u64,
    lowest: Duration,
    highest: Duration,
)
    requires
        call_ensures(draw_range, (spread,), limit),
        call_ensures(apply_jitter, (delay, spread, 0u64), lowest),
        call_ensures(apply_jitter, (delay, spread, limit), highest),
        spread <= u64::MAX / 2,
        spread * 1_000_000 <= util::duration_nanos(delay),
        util::duration_nanos(delay) + spread * 1_000_000 <= u64::MAX * 1_000_000_000 + 999_999_999,
    ensures
        util::duration_nanos(lowest) + spread * 1_000_000 == util::duration_nanos(delay),
        util::duration_nanos(highest) == util::duration_nanos(delay) + spread * 1_000_000,
{
}

/// What is drawn for a wider spread reaches no less far, and for one that cannot be doubled
/// as far as a number can.
pub proof fn law_wider_spread_reaches_farther(
    spread: u64,
    limit: u64,
    wider: u64,
    wider_limit: u64,
)
    requires
        call_ensures(draw_range, (spread,), limit),
        call_ensures(draw_range, (wider,), wider_limit),
        spread <= wider,
    ensures
        limit <= wider_limit,
        spread <= u64::MAX / 2 ==> limit == spread + spread,
        spread > u64::MAX / 2 ==> limit == u64::MAX,
{
}

} // verus!
