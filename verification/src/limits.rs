//! Admission of requests.
use crate::clock::{elapsed, Moment, NANOS_PER_SECOND};
use crate::config::RuntimeConfig;
use crate::text::same_text;
use vstd::prelude::*;

verus! {

/// The requests in a second that health checks may make.
pub const HEALTH_RATE: usize = 10;

/// The concurrent requests that health checks may make.
pub const HEALTH_CONCURRENCY: usize = 4;

/// A token bucket. A request takes one token; `rate` tokens come back in a second, up to one
/// second's worth. Parts of tokens are counted exactly, so the rate is kept however often a bucket
/// is asked.
#[derive(Clone, Copy, Debug, PartialEq, Eq, Structural)]
pub struct Gate {
    /// The tokens in store, in billionths.
    pub tokens: u128,
    pub updated: Moment,
    pub rate: usize,
    /// The requests that may be served at a time.
    pub concurrency: usize,
}

/// The tokens of a bucket after some nanoseconds, in billionths.
pub open spec fn refilled(tokens: int, rate: int, nanos: int) -> int {
    if tokens + nanos * rate < rate * NANOS_PER_SECOND {
        tokens + nanos * rate
    } else {
        rate * NANOS_PER_SECOND
    }
}

impl Gate {
    /// Whether a bucket holds at most one second's worth.
    pub open spec fn wf(self) -> bool {
        self.tokens <= self.rate * NANOS_PER_SECOND
    }

    /// The tokens at a moment, in billionths.
    pub open spec fn tokens_at(self, now: Moment) -> int {
        refilled(self.tokens as int, self.rate as int, elapsed(self.updated, now))
    }

    /// Whether a request is let through at a moment.
    pub open spec fn lets_through(self, now: Moment) -> bool {
        self.tokens_at(now) >= NANOS_PER_SECOND
    }

    /// The bucket after a request at a moment.
    pub open spec fn after_request(self, now: Moment) -> Gate {
        Gate {
            tokens: (if self.lets_through(now) {
                self.tokens_at(now) - NANOS_PER_SECOND
            } else {
                self.tokens_at(now)
            }) as u128,
            updated: now,
            ..self
        }
    }

    /// A full bucket.
    pub fn new(rate: usize, concurrency: usize, now: Moment) -> (gate: Gate)
        ensures
            gate == full_gate(rate, concurrency, now),
            gate.wf(),
    {
        Gate { tokens: rate as u128 * NANOS_PER_SECOND, updated: now, rate, concurrency }
    }

    /// Takes a token for a request, where there is one.
    pub fn allow(&mut self, now: Moment) -> (allowed: bool)
        requires
            old(self).wf(),
        ensures
            final(self).wf(),
            allowed == old(self).lets_through(now),
            *final(self) == old(self).after_request(now),
    {
        let nanos = now.since(self.updated);
        let full = self.rate as u128 * NANOS_PER_SECOND;
        let ghost rate = self.rate as int;
        let tokens = if nanos >= NANOS_PER_SECOND {
            proof {
                assert(nanos * rate >= NANOS_PER_SECOND * rate) by (nonlinear_arith)
                    requires
                        nanos >= NANOS_PER_SECOND,
                        rate >= 0,
                ;
            }
            full
        } else {
            proof {
                assert(nanos * rate <= NANOS_PER_SECOND * rate) by (nonlinear_arith)
                    requires
                        nanos <= NANOS_PER_SECOND,
                        rate >= 0,
                ;
                assert(nanos * rate >= 0) by (nonlinear_arith)
                    requires
                        nanos >= 0,
                        rate >= 0,
                ;
            }
            let sum = self.tokens + nanos * self.rate as u128;
            if sum < full {
                sum
            } else {
                full
            }
        };
        self.updated = now;
        if tokens < NANOS_PER_SECOND {
            self.tokens = tokens;
            return false;
        }
        self.tokens = tokens - NANOS_PER_SECOND;
        true
    }
}

/// A full bucket.
pub open spec fn full_gate(rate: usize, concurrency: usize, now: Moment) -> Gate {
    Gate { tokens: (rate * NANOS_PER_SECOND) as u128, updated: now, rate, concurrency }
}

/// Requests that share their limits.
#[derive(Clone, Copy, Debug, PartialEq, Eq, Structural)]
pub enum RouteGroup {
    Price,
    Presence,
    Health,
    Assets,
}

/// The group that a path belongs to.
pub open spec fn group_of(path: Seq<char>) -> RouteGroup {
    if path == "/api/price"@ {
        RouteGroup::Price
    } else if path == "/api/presence"@ {
        RouteGroup::Presence
    } else if path == "/health"@ {
        RouteGroup::Health
    } else {
        RouteGroup::Assets
    }
}

impl RouteGroup {
    /// The group that a path belongs to.
    pub fn of(path: &str) -> (group: RouteGroup)
        ensures
            group == group_of(path@),
    {
        if same_text(path, "/api/price") {
            RouteGroup::Price
        } else if same_text(path, "/api/presence") {
            RouteGroup::Presence
        } else if same_text(path, "/health") {
            RouteGroup::Health
        } else {
            RouteGroup::Assets
        }
    }
}

/// The limits of each group. They are fixed and keep nothing of any client.
#[derive(Clone, Copy, Debug, PartialEq, Eq, Structural)]
pub struct RequestLimits {
    pub price: Gate,
    pub presence: Gate,
    pub health: Gate,
    pub assets: Gate,
}

impl RequestLimits {
    /// Whether every bucket is in order.
    pub open spec fn wf(self) -> bool {
        self.price.wf() && self.presence.wf() && self.health.wf() && self.assets.wf()
    }

    /// The bucket of a group.
    pub open spec fn gate(self, group: RouteGroup) -> Gate {
        match group {
            RouteGroup::Price => self.price,
            RouteGroup::Presence => self.presence,
            RouteGroup::Health => self.health,
            RouteGroup::Assets => self.assets,
        }
    }

    /// Full buckets, that of health checks with capacity of its own.
    pub fn new(config: &RuntimeConfig, now: Moment) -> (limits: RequestLimits)
        ensures
            limits.wf(),
            forall|group: RouteGroup| #[trigger]
                limits.gate(group) == if group == RouteGroup::Health {
                    full_gate(HEALTH_RATE, HEALTH_CONCURRENCY, now)
                } else {
                    full_gate(config.requests_per_second, config.concurrency, now)
                },
    {
        RequestLimits {
            price: Gate::new(config.requests_per_second, config.concurrency, now),
            presence: Gate::new(config.requests_per_second, config.concurrency, now),
            health: Gate::new(HEALTH_RATE, HEALTH_CONCURRENCY, now),
            assets: Gate::new(config.requests_per_second, config.concurrency, now),
        }
    }

    /// Takes a token for a request from the bucket of its group, where there is one. The other
    /// groups are left alone.
    pub fn allow(&mut self, group: RouteGroup, now: Moment) -> (allowed: bool)
        requires
            old(self).wf(),
        ensures
            final(self).wf(),
            allowed == old(self).gate(group).lets_through(now),
            forall|other: RouteGroup| #[trigger]
                final(self).gate(other) == if other == group {
                    old(self).gate(group).after_request(now)
                } else {
                    old(self).gate(other)
                },
    {
        match group {
            RouteGroup::Price => self.price.allow(now),
            RouteGroup::Presence => self.presence.allow(now),
            RouteGroup::Health => self.health.allow(now),
            RouteGroup::Assets => self.assets.allow(now),
        }
    }
}

/// Why a request is not served.
#[derive(Clone, Copy, Debug, PartialEq, Eq, Structural)]
pub enum Refusal {
    /// The group has no token left.
    RateLimited,
    /// The group has no free place.
    Busy,
    /// The request took too long.
    DeadlineExceeded,
}

/// The reply to a request that is not served.
#[derive(Clone, Copy, Debug, PartialEq)]
pub struct RefusalReply {
    pub status: u16,
    pub retry_after_seconds: Option<u64>,
    pub error: &'static str,
}

/// The reply to a request that is not served.
pub open spec fn refusal_reply(refusal: Refusal) -> RefusalReply {
    match refusal {
        Refusal::RateLimited => RefusalReply {
            status: 429,
            retry_after_seconds: Some(1),
            error: "Request rate limit reached; retry later.",
        },
        Refusal::Busy => RefusalReply {
            status: 503,
            retry_after_seconds: Some(1),
            error: "Server busy; retry later.",
        },
        Refusal::DeadlineExceeded => RefusalReply {
            status: 408,
            retry_after_seconds: None,
            error: "Request deadline exceeded.",
        },
    }
}

impl Refusal {
    /// The reply to a request that is not served.
    pub fn reply(self) -> (reply: RefusalReply)
        ensures
            reply == refusal_reply(self),
    {
        match self {
            Refusal::RateLimited => RefusalReply {
                status: 429,
                retry_after_seconds: Some(1),
                error: "Request rate limit reached; retry later.",
            },
            Refusal::Busy => RefusalReply {
                status: 503,
                retry_after_seconds: Some(1),
                error: "Server busy; retry later.",
            },
            Refusal::DeadlineExceeded => RefusalReply {
                status: 408,
                retry_after_seconds: None,
                error: "Request deadline exceeded.",
            },
        }
    }
}

/// Decides on a request that found a free place or not: the rate limit comes first.
pub fn accept_request(allowed: bool, free_place: bool) -> (accepted: Result<(), Refusal>)
    ensures
        match accepted {
            Ok(()) => allowed && free_place,
            Err(Refusal::RateLimited) => !allowed,
            Err(Refusal::Busy) => allowed && !free_place,
            Err(Refusal::DeadlineExceeded) => false,
        },
{
    if !allowed {
        Err(Refusal::RateLimited)
    } else if !free_place {
        Err(Refusal::Busy)
    } else {
        Ok(())
    }
}

/// The bucket after requests at some moments.
pub open spec fn after_requests(gate: Gate, moments: Seq<Moment>) -> Gate
    decreases moments.len(),
{
    if moments.len() == 0 {
        gate
    } else {
        after_requests(gate, moments.drop_last()).after_request(moments.last())
    }
}

/// How many of the requests at some moments are let through.
pub open spec fn let_through(gate: Gate, moments: Seq<Moment>) -> nat
    decreases moments.len(),
{
    if moments.len() == 0 {
        0
    } else {
        let before = moments.drop_last();
        let_through(gate, before) + if after_requests(gate, before).lets_through(moments.last()) {
            1nat
        } else {
            0nat
        }
    }
}

/// Whether moments follow one another, from a start on.
pub open spec fn in_time(start: Moment, moments: Seq<Moment>) -> bool {
    &&& forall|i: int| 0 <= i < moments.len() ==> start.nanos <= (#[trigger] moments[i]).nanos
    &&& forall|i: int, j: int|
        0 <= i < j < moments.len() ==> (#[trigger] moments[i]).nanos <= (
        #[trigger] moments[j]).nanos
}

proof fn lemma_tokens_bound_requests(gate: Gate, moments: Seq<Moment>)
    requires
        gate.wf(),
        in_time(gate.updated, moments),
    ensures
        after_requests(gate, moments).wf(),
        after_requests(gate, moments).rate == gate.rate,
        moments.len() == 0 ==> after_requests(gate, moments).updated == gate.updated,
        moments.len() > 0 ==> after_requests(gate, moments).updated == moments.last(),
        let_through(gate, moments) * NANOS_PER_SECOND + after_requests(gate, moments).tokens
            <= gate.tokens + (after_requests(gate, moments).updated.nanos - gate.updated.nanos)
            * gate.rate,
    decreases moments.len(),
{
    if moments.len() > 0 {
        let before = moments.drop_last();
        assert forall|i: int| 0 <= i < before.len() implies gate.updated.nanos <= (
        #[trigger] before[i]).nanos by {
            assert(before[i] == moments[i]);
        }
        assert forall|i: int, j: int| 0 <= i < j < before.len() implies (
        #[trigger] before[i]).nanos <= (#[trigger] before[j]).nanos by {
            assert(before[i] == moments[i] && before[j] == moments[j]);
        }
        lemma_tokens_bound_requests(gate, before);
        let last = moments[moments.len() - 1];
        let middle = after_requests(gate, before);
        if before.len() > 0 {
            assert(middle.updated == moments[before.len() - 1]);
        }
        assert(middle.updated.nanos <= last.nanos);
        let rate = gate.rate as int;
        let span = last.nanos - middle.updated.nanos;
        let earlier = middle.updated.nanos - gate.updated.nanos;
        assert(span * rate >= 0) by (nonlinear_arith)
            requires
                span >= 0,
                rate >= 0,
        ;
        assert((span + earlier) * rate == span * rate + earlier * rate) by (nonlinear_arith);
        assert(middle.tokens_at(last) <= middle.tokens + span * rate);
        assert(0 <= middle.tokens_at(last) <= rate * NANOS_PER_SECOND) by {
            assert(rate * NANOS_PER_SECOND >= 0);
        }
    }
}

/// However requests come in, a full bucket lets through at most one second's worth, and in
/// addition what comes back in the time that they take.
pub proof fn law_rate_is_bounded(
    rate: usize,
    concurrency: usize,
    start: Moment,
    moments: Seq<Moment>,
    end: Moment,
)
    requires
        in_time(start, moments),
        moments.len() > 0 ==> end == moments.last(),
        moments.len() == 0 ==> end == start,
    ensures
        let_through(full_gate(rate, concurrency, start), moments) * NANOS_PER_SECOND <= rate * (
        NANOS_PER_SECOND + (end.nanos - start.nanos)),
{
    let gate = full_gate(rate, concurrency, start);
    lemma_tokens_bound_requests(gate, moments);
    let span = end.nanos - start.nanos;
    assert(rate * (NANOS_PER_SECOND + span) == rate * NANOS_PER_SECOND + span * rate)
        by (nonlinear_arith);
}

/// A refused request costs nothing: later requests are let through as if it had not come in.
pub proof fn law_refusals_cost_nothing(gate: Gate, early: Moment, later_on: Moment)
    requires
        gate.wf(),
        gate.updated.nanos <= early.nanos <= later_on.nanos,
        !gate.lets_through(early),
    ensures
        gate.after_request(early).tokens_at(later_on) == gate.tokens_at(later_on),
        gate.after_request(early).lets_through(later_on) == gate.lets_through(later_on),
{
    let rate = gate.rate as int;
    let first = early.nanos - gate.updated.nanos;
    let second = later_on.nanos - early.nanos;
    assert((first + second) * rate == first * rate + second * rate) by (nonlinear_arith);
    assert(first * rate >= 0 && second * rate >= 0) by (nonlinear_arith)
        requires
            first >= 0,
            second >= 0,
            rate >= 0,
    ;
}

/// Requests of one group do not use up the tokens of another: whatever one group asks for, the
/// others are let through as before.
pub proof fn law_groups_do_not_share_tokens(
    before: RequestLimits,
    after: RequestLimits,
    group: RouteGroup,
    other: RouteGroup,
    now: Moment,
    later_on: Moment,
)
    requires
        forall|any: RouteGroup| #[trigger]
            after.gate(any) == if any == group {
                before.gate(group).after_request(now)
            } else {
                before.gate(any)
            },
        other != group,
    ensures
        after.gate(other).lets_through(later_on) == before.gate(other).lets_through(later_on),
{
}

/// A full bucket that has not been used lets its rate of requests through at once.
pub proof fn law_burst_of_a_second_is_let_through(
    rate: usize,
    concurrency: usize,
    now: Moment,
    count: nat,
)
    requires
        count <= rate,
    ensures
        let_through(
            full_gate(rate, concurrency, now),
            Seq::new(count, |i: int| now),
        ) == count,
        after_requests(
            full_gate(rate, concurrency, now),
            Seq::new(count, |i: int| now),
        ).tokens == (rate - count) * NANOS_PER_SECOND,
        after_requests(full_gate(rate, concurrency, now), Seq::new(count, |i: int| now)).updated
            == now,
        after_requests(full_gate(rate, concurrency, now), Seq::new(count, |i: int| now)).rate
            == rate,
    decreases count,
{
    let gate = full_gate(rate, concurrency, now);
    let moments = Seq::new(count, |i: int| now);
    if count > 0 {
        let fewer = (count - 1) as nat;
        law_burst_of_a_second_is_let_through(rate, concurrency, now, fewer);
        assert(moments.drop_last() =~= Seq::new(fewer, |i: int| now));
        let middle = after_requests(gate, moments.drop_last());
        assert(0 * rate == 0) by (nonlinear_arith);
        assert(middle.tokens_at(now) == (rate - fewer) * NANOS_PER_SECOND);
    }
}

/// What a bucket does. The tokens of `rate` come back evenly within each second, up to one second's
/// worth. A request is let through where a whole token is there, and takes it; else nothing is
/// taken.
pub proof fn law_buckets_give_their_rate(gate: Gate, now: Moment)
    requires
        gate.wf(),
    ensures
        ({
            let passed = if now.nanos >= gate.updated.nanos {
                now.nanos - gate.updated.nanos
            } else {
                0
            };
            let sum = gate.tokens + passed * gate.rate;
            let full = gate.rate * 1_000_000_000;
            let after = gate.after_request(now);
            &&& sum <= full ==> gate.tokens_at(now) == sum
            &&& sum >= full ==> gate.tokens_at(now) == full
            &&& gate.lets_through(now) <==> sum >= 1_000_000_000 && full >= 1_000_000_000
            &&& gate.lets_through(now) ==> after.tokens == gate.tokens_at(now) - 1_000_000_000
            &&& !gate.lets_through(now) ==> after.tokens == gate.tokens_at(now)
            &&& after.updated == now
            &&& after.rate == gate.rate
            &&& after.concurrency == gate.concurrency
        }),
{
    let rate = gate.rate as int;
    let passed = elapsed(gate.updated, now);
    assert(passed * rate >= 0) by (nonlinear_arith)
        requires
            passed >= 0,
            rate >= 0,
    ;
}

/// Whoever waits for a token is let through: after the time in which one comes back, and at the
/// latest after a second.
pub proof fn law_waiting_is_rewarded(gate: Gate, now: Moment)
    requires
        gate.wf(),
        gate.rate >= 1,
        now.nanos >= gate.updated.nanos,
        (now.nanos - gate.updated.nanos) * gate.rate >= 1_000_000_000 || now.nanos
            - gate.updated.nanos >= 1_000_000_000,
    ensures
        gate.lets_through(now),
{
    let rate = gate.rate as int;
    let passed = now.nanos - gate.updated.nanos;
    assert(passed >= 1_000_000_000 ==> passed * rate >= 1_000_000_000) by (nonlinear_arith)
        requires
            rate >= 1,
    ;
    assert(rate * 1_000_000_000 >= 1_000_000_000) by (nonlinear_arith)
        requires
            rate >= 1,
    ;
}

/// Prices, presence and health checks have buckets of their own; every other path shares one.
pub proof fn law_paths_have_their_group(path: Seq<char>, limits: RequestLimits)
    ensures
        group_of(path) == RouteGroup::Price <==> path == "/api/price"@,
        group_of(path) == RouteGroup::Presence <==> path == "/api/presence"@,
        group_of(path) == RouteGroup::Health <==> path == "/health"@,
        limits.gate(RouteGroup::Price) == limits.price,
        limits.gate(RouteGroup::Presence) == limits.presence,
        limits.gate(RouteGroup::Health) == limits.health,
        limits.gate(RouteGroup::Assets) == limits.assets,
{
    reveal_strlit("/api/price");
    reveal_strlit("/api/presence");
    reveal_strlit("/health");
    assert("/api/price"@.len() == 10);
    assert("/api/presence"@.len() == 13);
    assert("/health"@.len() == 7);
}

/// A new bucket holds one second's worth of tokens, as whole ones, and has the limits that it is
/// made with.
pub proof fn law_new_buckets_are_full(rate: usize, concurrency: usize, now: Moment)
    ensures
        full_gate(rate, concurrency, now).tokens == rate * 1_000_000_000,
        full_gate(rate, concurrency, now).tokens_at(now) == rate * 1_000_000_000,
        full_gate(rate, concurrency, now).updated == now,
        full_gate(rate, concurrency, now).rate == rate,
        full_gate(rate, concurrency, now).concurrency == concurrency,
{
    assert(0 * rate == 0) by (nonlinear_arith);
}

/// Whoever is refused for want of room or of tokens is told to come back in a second; a request
/// that took too long is not. Only a client that asks too often is told that it does.
pub proof fn law_refusals_tell_when_to_come_back(refusal: Refusal)
    ensures
        refusal_reply(refusal).retry_after_seconds == if refusal == Refusal::DeadlineExceeded {
            None
        } else {
            Some(1u64)
        },
        refusal_reply(refusal).status == 429 <==> refusal == Refusal::RateLimited,
        refusal_reply(refusal).status == 503 <==> refusal == Refusal::Busy,
        refusal_reply(refusal).status == 408 <==> refusal == Refusal::DeadlineExceeded,
{
}

} // verus!
