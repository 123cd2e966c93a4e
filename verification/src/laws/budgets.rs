//! What connections may rely on of their budgets.

use crate::limits::{self, BucketView, ClientLimits, Limit, LimitsView, TokenBucket, TOKEN};
use vstd::prelude::*;

verus! {

/// How many actions of a kind a connection may take at once.
pub open spec fn burst(which: Limit) -> nat {
    match which {
        Limit::Chat => 5,
        Limit::Moves => 40,
        Limit::RoomUpdates => 10,
        Limit::UserData => 3,
        Limit::Auth => 5,
        Limit::Joins => 10,
    }
}

/// After how many nanoseconds a connection that has spent everything may act
/// again: 40 ms for a move, half a second for a layout, two seconds for a chat
/// line or a join, ten seconds for user data or a claim.
pub open spec fn pause(which: Limit) -> int {
    match which {
        Limit::Chat => 2_000_000_000,
        Limit::Moves => 40_000_000,
        Limit::RoomUpdates => 500_000_000,
        Limit::UserData => 10_000_000_000,
        Limit::Auth => 10_000_000_000,
        Limit::Joins => 2_000_000_000,
    }
}

/// Whether times follow each other, from `start` on, no faster than every `gap`.
pub open spec fn spaced(times: Seq<int>, start: int, gap: int) -> bool {
    &&& times.len() > 0 ==> start <= times[0]
    &&& forall|i: int| 0 < i < times.len() ==> #[trigger] times[i] - times[i - 1] >= gap
}

/// A bucket that grants a token every `gap` never refuses whoever waits so long.
proof fn lemma_never_refused(b: BucketView, gap: int, times: Seq<int>)
    requires
        limits::sound(b),
        b.tokens == b.capacity,
        b.capacity >= TOKEN,
        gap >= 0,
        gap * b.refill >= TOKEN,
        spaced(times, b.last, gap),
    ensures
        limits::grants(b, times) == times.len(),
        limits::sound(limits::after_takes(b, times)),
        limits::after_takes(b, times).capacity == b.capacity,
        limits::after_takes(b, times).refill == b.refill,
        times.len() > 0 ==> limits::after_takes(b, times).last == times.last(),
    decreases times.len(),
{
    limits::bucket_stays_sound(b, times);
    if times.len() > 0 {
        let front = times.drop_last();
        assert forall|i: int| 0 < i < front.len() implies #[trigger] front[i] - front[i - 1]
            >= gap by {
            assert(times[i] - times[i - 1] >= gap);
        }
        lemma_never_refused(b, gap, front);
        let c = limits::after_takes(b, front);
        let n = times.len() - 1;
        if front.len() > 0 {
            assert(times[n] - times[n - 1] >= gap);
            assert((times[n] - c.last) * c.refill >= TOKEN) by (nonlinear_arith)
                requires
                    times[n] - c.last >= gap,
                    gap * c.refill >= TOKEN,
                    c.refill >= 0,
            ;
        } else {
            assert((times[n] - c.last) * c.refill >= 0) by (nonlinear_arith)
                requires
                    times[n] >= c.last,
                    c.refill >= 0,
            ;
        }
    }
}

/// Whoever acts no faster than the pause of its kind, from the time of connecting
/// on, is never refused. In particular a client that moves every 50 ms is heard
/// all the way.
pub proof fn the_patient_are_never_refused(
    connected: u128,
    fresh: ClientLimits,
    which: Limit,
    times: Seq<int>,
)
    requires
        call_ensures(ClientLimits::new, (connected,), fresh),
        spaced(times, connected as int, pause(which)),
    ensures
        limits::grants(limits::budget(fresh@, which), times) == times.len(),
{
    lemma_never_refused(limits::budget(fresh@, which), pause(which), times);
}

/// A client that moves every 50 ms or slower is never refused.
pub proof fn walkers_are_never_refused(connected: u128, fresh: ClientLimits, times: Seq<int>)
    requires
        call_ensures(ClientLimits::new, (connected,), fresh),
        spaced(times, connected as int, 50_000_000),
    ensures
        limits::grants(limits::budget(fresh@, Limit::Moves), times) == times.len(),
{
    assert forall|i: int| 0 < i < times.len() implies #[trigger] times[i] - times[i - 1] >= pause(
        Limit::Moves,
    ) by {
        assert(times[i] - times[i - 1] >= 50_000_000);
    }
    the_patient_are_never_refused(connected, fresh, Limit::Moves, times);
}

/// A fresh connection may take as many actions at once as the burst of their kind,
/// and not one more at the same moment.
pub proof fn bursts_are_bounded(connected: u128, fresh: ClientLimits, which: Limit, times: Seq<int>)
    requires
        call_ensures(ClientLimits::new, (connected,), fresh),
        forall|i: int| 0 <= i < times.len() ==> times[i] == connected,
    ensures
        limits::grants(limits::budget(fresh@, which), times) == if times.len() <= burst(which) {
            times.len()
        } else {
            burst(which)
        },
{
    limits::full_burst(limits::budget(fresh@, which), burst(which), times);
}

/// In the long run a connection is granted no more than its burst and one action
/// per pause.
pub proof fn nobody_outruns_the_budget(
    connected: u128,
    fresh: ClientLimits,
    which: Limit,
    times: Seq<int>,
)
    requires
        call_ensures(ClientLimits::new, (connected,), fresh),
        limits::in_order(limits::budget(fresh@, which), times),
        times.len() > 0,
    ensures
        connected <= times[0],
        (limits::grants(limits::budget(fresh@, which), times) - burst(which)) * pause(which)
            <= times.last() - connected,
{
    let b = limits::budget(fresh@, which);
    limits::grants_are_bounded(b, times);
    let g = limits::grants(b, times) as int;
    let k = burst(which) as int;
    let t = times.last() - connected;
    assert(b.refill * pause(which) == TOKEN) by (nonlinear_arith)
        requires
            b.refill == match which {
                Limit::Chat => 500int,
                Limit::Moves => 25_000,
                Limit::RoomUpdates => 2_000,
                Limit::UserData => 100,
                Limit::Auth => 100,
                Limit::Joins => 500,
            },
            pause(which) == match which {
                Limit::Chat => 2_000_000_000int,
                Limit::Moves => 40_000_000,
                Limit::RoomUpdates => 500_000_000,
                Limit::UserData => 10_000_000_000,
                Limit::Auth => 10_000_000_000,
                Limit::Joins => 2_000_000_000,
            },
    ;
    let p = pause(which);
    let refill = b.refill;
    assert((g - k) * p <= t) by (nonlinear_arith)
        requires
            (g - k) * (refill * p) <= t * refill,
            refill > 0,
    ;
}

/// Every attempt is answered by the budget of its kind as it stands, and is the
/// only thing that changes it: the clock is noted, what was regained is added up to
/// the burst, and a granted action costs one token.
pub proof fn attempts_cost_one_token(
    before: &mut ClientLimits,
    which: Limit,
    now: u128,
    granted: bool,
    other: Limit,
)
    requires
        call_ensures(ClientLimits::try_take, (before, which, now), granted),
    ensures
        granted == limits::granted(limits::budget(old(before)@, which), now as int),
        limits::budget(final(before)@, which) == limits::after_take(
            limits::budget(old(before)@, which),
            now as int,
        ),
        other != which ==> limits::budget(final(before)@, other) == limits::budget(
            old(before)@,
            other,
        ),
        ({
            let b = limits::budget(old(before)@, which);
            let a = limits::budget(final(before)@, which);
            let held = limits::refilled(b, now as int);
            &&& a.capacity == b.capacity
            &&& a.refill == b.refill
            &&& a.last == now
            &&& granted ==> held >= TOKEN && a.tokens == held - TOKEN
            &&& !granted ==> held < TOKEN && a.tokens == held
            &&& held <= b.capacity
            &&& now >= b.last && b.tokens + (now - b.last) * b.refill <= b.capacity ==> held
                == b.tokens + (now - b.last) * b.refill
            &&& now >= b.last && b.tokens + (now - b.last) * b.refill > b.capacity ==> held
                == b.capacity
            &&& now < b.last && b.tokens <= b.capacity ==> held == b.tokens
        }),
{
    let b = limits::budget(old(before)@, which);
    assert(0 * b.refill == 0) by (nonlinear_arith);
}

/// Whether two sets of budgets have the same bursts and rates.
pub open spec fn same_rates(a: LimitsView, b: LimitsView) -> bool {
    forall|which: Limit|
        (#[trigger] limits::budget(a, which)).capacity == limits::budget(b, which).capacity
            && limits::budget(a, which).refill == limits::budget(b, which).refill
}

/// However much a connection has spent, after the pause of its kind it may act
/// again; and spending changes neither bursts nor rates.
pub proof fn budgets_recover(
    connected: u128,
    fresh: ClientLimits,
    spent: &mut ClientLimits,
    which: Limit,
    now: u128,
    granted: bool,
    later_limits: &mut ClientLimits,
    later: u128,
    again: bool,
)
    requires
        call_ensures(ClientLimits::new, (connected,), fresh),
        same_rates(old(spent)@, fresh@),
        limits::sound(limits::budget(old(spent)@, which)),
        call_ensures(ClientLimits::try_take, (spent, which, now), granted),
        *old(later_limits) == *final(spent),
        later >= now + pause(which),
        call_ensures(ClientLimits::try_take, (later_limits, which, later), again),
    ensures
        again,
        same_rates(final(spent)@, fresh@),
{
    let b = limits::budget(old(spent)@, which);
    let c = limits::budget(final(spent)@, which);
    assert(b.capacity == limits::budget(fresh@, which).capacity);
    limits::bucket_stays_sound(b, seq![now as int]);
    assert(seq![now as int].drop_last() =~= Seq::<int>::empty());
    assert(limits::after_takes(b, Seq::<int>::empty()) == b);
    assert(limits::after_takes(b, seq![now as int]) == c);
    let p = pause(which);
    assert(p * c.refill >= TOKEN);
    assert((later - now) * c.refill >= TOKEN) by (nonlinear_arith)
        requires
            later - now >= p,
            p * c.refill >= TOKEN,
            c.refill >= 0,
    ;
    assert forall|w: Limit|
        (#[trigger] limits::budget(final(spent)@, w)).capacity == limits::budget(fresh@, w).capacity
            && limits::budget(final(spent)@, w).refill == limits::budget(fresh@, w).refill by {
        assert(limits::budget(old(spent)@, w).capacity == limits::budget(fresh@, w).capacity);
    }
}

/// A bucket starts full, with the capacity that was asked for, and regains in every
/// second (a billion nanoseconds) as many thousandths of a token as asked for.
pub proof fn buckets_start_full(
    capacity: u32,
    refill_milli_per_sec: u32,
    now: u128,
    bucket: TokenBucket,
)
    requires
        call_ensures(TokenBucket::new, (capacity, refill_milli_per_sec, now), bucket),
    ensures
        bucket@.tokens == bucket@.capacity == capacity * 1_000_000_000_000,
        bucket@.last == now,
        bucket@.refill * 1_000_000_000 * 1_000 == refill_milli_per_sec * TOKEN,
        TOKEN == 1_000_000_000_000,
{
}

} // verus!
