//! Per-connection token buckets.
//!
//! Tokens are counted exactly: one token is `10^12` parts, so that a refill of
//! one thousandth of a token per second is one part per nanosecond. Times are
//! nanoseconds on a clock that does not go back.

use vstd::prelude::*;

verus! {

/// The parts of one token.
pub const TOKEN: u128 = 1_000_000_000_000;

/// What a bucket holds: parts, parts per nanosecond, and the time it was last
/// looked at.
pub struct BucketView {
    pub capacity: int,
    pub tokens: int,
    pub refill: int,
    pub last: int,
}

/// A bucket that starts full, drains by one token per permitted action and
/// refills at a constant rate up to its capacity.
#[derive(Clone, Copy, Debug)]
pub struct TokenBucket {
    capacity: u128,
    tokens: u128,
    refill: u128,
    last: u128,
}

/// The tokens after waiting until `now`.
pub open spec fn refilled(b: BucketView, now: int) -> int {
    let elapsed = if now >= b.last {
        now - b.last
    } else {
        0
    };
    let sum = b.tokens + elapsed * b.refill;
    if sum <= b.capacity {
        sum
    } else {
        b.capacity
    }
}

/// Whether an action at `now` is permitted.
pub open spec fn granted(b: BucketView, now: int) -> bool {
    refilled(b, now) >= TOKEN
}

/// The bucket after an action was tried at `now`.
pub open spec fn after_take(b: BucketView, now: int) -> BucketView {
    BucketView {
        tokens: if granted(b, now) {
            refilled(b, now) - TOKEN
        } else {
            refilled(b, now)
        },
        last: now,
        ..b
    }
}

impl View for TokenBucket {
    type V = BucketView;

    closed spec fn view(&self) -> BucketView {
        BucketView {
            capacity: self.capacity as int,
            tokens: self.tokens as int,
            refill: self.refill as int,
            last: self.last as int,
        }
    }
}

/// A full bucket.
pub open spec fn full_bucket(capacity: u32, refill_milli_per_sec: u32, now: u128) -> BucketView {
    BucketView {
        capacity: capacity * TOKEN,
        tokens: capacity * TOKEN,
        refill: refill_milli_per_sec as int,
        last: now as int,
    }
}

impl TokenBucket {
    /// The bucket never holds more than its capacity.
    pub closed spec fn wf(&self) -> bool {
        self.tokens <= self.capacity <= 0xffff_ffff * TOKEN && self.refill <= 0xffff_ffff
    }

    /// A full bucket of `capacity` tokens that regains `refill_milli_per_sec`
    /// thousandths of a token per second.
    pub fn new(capacity: u32, refill_milli_per_sec: u32, now: u128) -> (b: TokenBucket)
        ensures
            b.wf(),
            b@ == full_bucket(capacity, refill_milli_per_sec, now),
    {
        let parts: u128 = capacity as u128 * TOKEN;
        TokenBucket { capacity: parts, tokens: parts, refill: refill_milli_per_sec as u128, last: now }
    }

    /// Tries to spend one token at `now`. `false` when over budget.
    pub fn try_take(&mut self, now: u128) -> (r: bool)
        requires
            old(self).wf(),
        ensures
            final(self).wf(),
            r == granted(old(self)@, now as int),
            final(self)@ == after_take(old(self)@, now as int),
    {
        let elapsed: u128 = if now >= self.last {
            now - self.last
        } else {
            0
        };
        self.last = now;
        let room: u128 = self.capacity - self.tokens;
        if self.refill > 0 && elapsed > room / self.refill {
            proof {
                assert(elapsed * self.refill >= room) by (nonlinear_arith)
                    requires
                        elapsed >= room as int / self.refill as int + 1,
                        self.refill > 0,
                ;
            }
            self.tokens = self.capacity;
        } else {
            proof {
                if self.refill > 0 {
                    assert(elapsed * self.refill <= room) by (nonlinear_arith)
                        requires
                            elapsed <= room as int / self.refill as int,
                            self.refill > 0,
                    ;
                } else {
                    assert(elapsed * self.refill == 0) by (nonlinear_arith)
                        requires
                            self.refill == 0,
                    ;
                }
            }
            self.tokens = self.tokens + elapsed * self.refill;
        }
        if self.tokens >= TOKEN {
            self.tokens = self.tokens - TOKEN;
            true
        } else {
            false
        }
    }
}

/// The budgets of one connection.
#[derive(Clone, Copy, Debug)]
pub struct ClientLimits {
    pub chat: TokenBucket,
    pub moves: TokenBucket,
    pub room_updates: TokenBucket,
    pub user_data: TokenBucket,
    pub auth: TokenBucket,
    pub joins: TokenBucket,
}

/// Which budget an action counts against.
#[derive(Clone, Copy, Debug, PartialEq, Eq, Structural)]
pub enum Limit {
    Chat,
    Moves,
    RoomUpdates,
    UserData,
    Auth,
    Joins,
}

/// What the budgets of one connection hold.
pub struct LimitsView {
    pub chat: BucketView,
    pub moves: BucketView,
    pub room_updates: BucketView,
    pub user_data: BucketView,
    pub auth: BucketView,
    pub joins: BucketView,
}

impl View for ClientLimits {
    type V = LimitsView;

    open spec fn view(&self) -> LimitsView {
        LimitsView {
            chat: self.chat@,
            moves: self.moves@,
            room_updates: self.room_updates@,
            user_data: self.user_data@,
            auth: self.auth@,
            joins: self.joins@,
        }
    }
}

/// Full budgets: bursts of chat 5, moves 40, room updates 10, user data 3, auth 5
/// and joins 10, regained at 0.5, 25, 2, 0.1, 0.1 and 0.5 per second.
pub open spec fn full_limits(now: u128) -> LimitsView {
    LimitsView {
        chat: full_bucket(5, 500, now),
        moves: full_bucket(40, 25_000, now),
        room_updates: full_bucket(10, 2_000, now),
        user_data: full_bucket(3, 100, now),
        auth: full_bucket(5, 100, now),
        joins: full_bucket(10, 500, now),
    }
}

/// What a budget holds.
pub open spec fn budget(limits: LimitsView, which: Limit) -> BucketView {
    match which {
        Limit::Chat => limits.chat,
        Limit::Moves => limits.moves,
        Limit::RoomUpdates => limits.room_updates,
        Limit::UserData => limits.user_data,
        Limit::Auth => limits.auth,
        Limit::Joins => limits.joins,
    }
}

/// Whether an action of a kind is permitted at `now`.
pub open spec fn permits(limits: LimitsView, which: Limit, now: u128) -> bool {
    granted(budget(limits, which), now as int)
}

/// The budgets after an action of a kind was tried at `now`: that one is drawn
/// on, the others are untouched.
pub open spec fn drawn(limits: LimitsView, which: Limit, now: u128) -> LimitsView {
    let after = after_take(budget(limits, which), now as int);
    match which {
        Limit::Chat => LimitsView { chat: after, ..limits },
        Limit::Moves => LimitsView { moves: after, ..limits },
        Limit::RoomUpdates => LimitsView { room_updates: after, ..limits },
        Limit::UserData => LimitsView { user_data: after, ..limits },
        Limit::Auth => LimitsView { auth: after, ..limits },
        Limit::Joins => LimitsView { joins: after, ..limits },
    }
}

impl ClientLimits {
    /// Every bucket is sound.
    pub open spec fn wf(&self) -> bool {
        &&& self.chat.wf()
        &&& self.moves.wf()
        &&& self.room_updates.wf()
        &&& self.user_data.wf()
        &&& self.auth.wf()
        &&& self.joins.wf()
    }

    /// Full budgets.
    pub fn new(now: u128) -> (l: ClientLimits)
        ensures
            l.wf(),
            l@ == full_limits(now),
    {
        ClientLimits {
            chat: TokenBucket::new(5, 500, now),
            moves: TokenBucket::new(40, 25_000, now),
            room_updates: TokenBucket::new(10, 2_000, now),
            user_data: TokenBucket::new(3, 100, now),
            auth: TokenBucket::new(5, 100, now),
            joins: TokenBucket::new(10, 500, now),
        }
    }

    /// Tries to spend one token of a budget.
    pub fn try_take(&mut self, which: Limit, now: u128) -> (r: bool)
        requires
            old(self).wf(),
        ensures
            final(self).wf(),
            r == permits(old(self)@, which, now),
            final(self)@ == drawn(old(self)@, which, now),
    {
        match which {
            Limit::Chat => self.chat.try_take(now),
            Limit::Moves => self.moves.try_take(now),
            Limit::RoomUpdates => self.room_updates.try_take(now),
            Limit::UserData => self.user_data.try_take(now),
            Limit::Auth => self.auth.try_take(now),
            Limit::Joins => self.joins.try_take(now),
        }
    }
}

// -------------------------------------------------------------------- laws

/// The bucket after an action was tried at each of the given times in turn.
pub open spec fn after_takes(b: BucketView, times: Seq<int>) -> BucketView
    decreases times.len(),
{
    if times.len() == 0 {
        b
    } else {
        after_take(after_takes(b, times.drop_last()), times.last())
    }
}

/// How many of the actions tried at the given times are permitted.
pub open spec fn grants(b: BucketView, times: Seq<int>) -> nat
    decreases times.len(),
{
    if times.len() == 0 {
        0
    } else {
        grants(b, times.drop_last()) + if granted(
            after_takes(b, times.drop_last()),
            times.last(),
        ) {
            1nat
        } else {
            0nat
        }
    }
}

/// A bucket as its constructor and operations leave it.
pub open spec fn sound(b: BucketView) -> bool {
    0 <= b.tokens <= b.capacity && 0 <= b.refill
}

/// Whether times do not go back, starting from when `b` was last looked at.
pub open spec fn in_order(b: BucketView, times: Seq<int>) -> bool {
    &&& times.len() > 0 ==> b.last <= times[0]
    &&& forall|i: int, j: int| 0 <= i <= j < times.len() ==> times[i] <= times[j]
}

/// However the attempts are timed, a bucket keeps between nothing and its
/// capacity.
pub proof fn bucket_stays_sound(b: BucketView, times: Seq<int>)
    requires
        sound(b),
    ensures
        sound(after_takes(b, times)),
        after_takes(b, times).capacity == b.capacity,
        after_takes(b, times).refill == b.refill,
    decreases times.len(),
{
    if times.len() > 0 {
        bucket_stays_sound(b, times.drop_last());
        let c = after_takes(b, times.drop_last());
        let now = times.last();
        let elapsed = if now >= c.last {
            now - c.last
        } else {
            0
        };
        assert(elapsed * c.refill >= 0) by (nonlinear_arith)
            requires
                elapsed >= 0,
                c.refill >= 0,
        ;
    }
}

/// Over any run of attempts, no more actions are permitted than the bucket
/// held at first plus what it regained in the meantime.
pub proof fn grants_are_bounded(b: BucketView, times: Seq<int>)
    requires
        sound(b),
        in_order(b, times),
        times.len() > 0,
    ensures
        grants(b, times) * TOKEN <= b.tokens + (times.last() - b.last) * b.refill,
{
    lemma_budget(b, times);
}

/// What is left and what was spent never exceed what there was and what came.
proof fn lemma_budget(b: BucketView, times: Seq<int>)
    requires
        sound(b),
        in_order(b, times),
    ensures
        after_takes(b, times).last == if times.len() == 0 {
            b.last
        } else {
            times.last()
        },
        after_takes(b, times).tokens + grants(b, times) * TOKEN <= b.tokens + (after_takes(
            b,
            times,
        ).last - b.last) * b.refill,
        sound(after_takes(b, times)),
        after_takes(b, times).refill == b.refill,
    decreases times.len(),
{
    bucket_stays_sound(b, times);
    if times.len() > 0 {
        let front = times.drop_last();
        lemma_budget(b, front);
        let c = after_takes(b, front);
        let now = times.last();
        if front.len() > 0 {
            assert(front.last() == times[times.len() - 2]);
        }
        assert(c.last <= now);
        assert((c.last - b.last) * b.refill + (now - c.last) * b.refill == (now - b.last)
            * b.refill) by (nonlinear_arith);
    } else {
        assert((b.last - b.last) * b.refill == 0) by (nonlinear_arith);
    }
}

/// A full bucket of `n` tokens permits its first `n` actions at once, and not
/// one more at the same moment.
pub proof fn full_burst(b: BucketView, n: nat, times: Seq<int>)
    requires
        b.tokens == b.capacity == n * TOKEN,
        forall|i: int| 0 <= i < times.len() ==> times[i] == b.last,
    ensures
        grants(b, times) == if times.len() <= n {
            times.len()
        } else {
            n
        },
    decreases times.len(),
{
    lemma_burst(b, n, times);
}

proof fn lemma_burst(b: BucketView, n: nat, times: Seq<int>)
    requires
        b.tokens == b.capacity == n * TOKEN,
        forall|i: int| 0 <= i < times.len() ==> times[i] == b.last,
    ensures
        grants(b, times) == if times.len() <= n {
            times.len()
        } else {
            n
        },
        after_takes(b, times).tokens == (n - grants(b, times)) * TOKEN,
        after_takes(b, times).last == b.last,
        after_takes(b, times).capacity == b.capacity,
    decreases times.len(),
{
    if times.len() > 0 {
        let front = times.drop_last();
        assert forall|i: int| 0 <= i < front.len() implies front[i] == b.last by {
            assert(front[i] == times[i]);
        }
        lemma_burst(b, n, front);
        let c = after_takes(b, front);
        assert((times.last() - c.last) * c.refill == 0) by (nonlinear_arith)
            requires
                times.last() == c.last,
        ;
    }
}

/// An action counts against its own budget alone.
pub proof fn budgets_are_separate(limits: LimitsView, which: Limit, other: Limit, now: u128)
    requires
        other != which,
    ensures
        budget(drawn(limits, which, now), other) == budget(limits, other),
        budget(drawn(limits, which, now), which) == after_take(budget(limits, which), now as int),
{
}

} // verus!
