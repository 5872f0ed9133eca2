//! Which providers may be asked, and when.
use crate::clock::{
    elapsed, later, reaches, seconds, Moment, LAST_MOMENT_NANOS, NANOS_PER_SECOND,
};
use crate::config::REFRESH_INTERVAL_SECONDS;
use crate::errors::RetryAfter;
use crate::sources::{all_sources, UpstreamSource, SOURCE_COUNT};
use vstd::arithmetic::power::pow;
use vstd::prelude::*;

verus! {

/// The longest delay after failures, in seconds.
pub const LONGEST_BACKOFF_SECONDS: u64 = 300;

/// The refresh schedule of one process.
#[derive(Clone, Copy, Debug, PartialEq, Eq)]
pub struct RefreshCoordinator {
    /// The place from which the rotation goes on.
    pub next_source: usize,
    /// When providers were last asked.
    pub last_attempt: Option<Moment>,
    /// For each provider, the moment before which it is left alone.
    pub next_eligible: [Option<Moment>; 4],
    /// For each provider, its failures since its last success.
    pub failures: [u32; 4],
    /// The last activation that a full batch has served.
    pub completed_generation: u64,
}

/// Which providers one refresh asks.
#[derive(Debug, PartialEq)]
pub struct RefreshPlan {
    pub sources: Vec<UpstreamSource>,
    pub full_refresh: bool,
    /// The activation that the plan was made for.
    pub generation: u64,
}

/// How one provider answered.
#[derive(Clone, Copy, Debug, PartialEq, Eq, Structural)]
pub enum AttemptResult {
    Succeeded,
    Failed { retry_after: Option<RetryAfter> },
}

/// The delay after a number of failures in a row, in seconds.
pub open spec fn backoff_seconds(failures: int) -> int {
    if failures <= 1 {
        10
    } else if failures == 2 {
        20
    } else if failures == 3 {
        40
    } else if failures == 4 {
        80
    } else if failures == 5 {
        160
    } else {
        LONGEST_BACKOFF_SECONDS as int
    }
}

/// The delay that a provider asks for, in seconds.
pub open spec fn hinted_seconds(hint: RetryAfter, now_unix: i64) -> int {
    match hint {
        RetryAfter::Delay(count) => count as int,
        RetryAfter::At(time) => if time > now_unix {
            time - now_unix
        } else {
            0
        },
    }
}

/// When a provider may be asked again after a failure: its own wish counts where it is longer
/// than the backoff and representable.
pub open spec fn retry_moment(
    now: Moment,
    now_unix: i64,
    failures: int,
    hint: Option<RetryAfter>,
) -> Moment {
    let backoff = backoff_seconds(failures);
    match hint {
        Some(hint) => {
            let wish = hinted_seconds(hint, now_unix);
            if wish > backoff && reaches(now, wish) {
                later(now, wish)
            } else {
                later(now, backoff)
            }
        },
        None => later(now, backoff),
    }
}

impl RefreshCoordinator {
    /// Whether the rotation stands at a provider.
    pub open spec fn wf(self) -> bool {
        self.next_source < SOURCE_COUNT
    }

    /// Whether the last attempt is less than the refresh interval ago.
    pub open spec fn too_recent(self, now: Moment) -> bool {
        self.last_attempt matches Some(last) && elapsed(last, now) < seconds(
            REFRESH_INTERVAL_SECONDS as int,
        )
    }

    /// Whether an activation is still to be served by a full batch.
    pub open spec fn owes_full_refresh(self, generation: u64) -> bool {
        generation != self.completed_generation
    }

    /// Whether a provider may be asked.
    pub open spec fn eligible(self, source: UpstreamSource, now: Moment) -> bool {
        self.next_eligible@[source.position() as int] matches Some(moment) ==> now.nanos
            >= moment.nanos
    }

    /// The providers that may be asked among some places of the configured order, counted round
    /// from a start.
    pub open spec fn eligible_from(self, now: Moment, start: int, places: nat) -> Seq<
        UpstreamSource,
    >
        decreases places,
    {
        if places == 0 {
            Seq::empty()
        } else {
            let before = self.eligible_from(now, start, (places - 1) as nat);
            let source = all_sources()[(start + places - 1) % SOURCE_COUNT as int];
            if self.eligible(source, now) {
                before.push(source)
            } else {
                before
            }
        }
    }

    /// The providers that a refresh asks: all that may be asked where a full batch is owed, else
    /// the first of the rotation.
    pub open spec fn planned(self, now: Moment, generation: u64) -> Seq<UpstreamSource> {
        if self.owes_full_refresh(generation) {
            self.eligible_from(now, 0, SOURCE_COUNT as nat)
        } else {
            let rotation = self.eligible_from(now, self.next_source as int, SOURCE_COUNT as nat);
            if rotation.len() > 1 {
                rotation.take(1)
            } else {
                rotation
            }
        }
    }

    /// Whether a refresh may begin.
    pub open spec fn may_begin(self, now: Moment, generation: u64) -> bool {
        !self.too_recent(now) && self.planned(now, generation).len() > 0
    }

    /// The state of the schedule before any attempt.
    pub open spec fn fresh(self) -> bool {
        &&& self.next_source == 0
        &&& self.last_attempt is None
        &&& self.completed_generation == 0
        &&& forall|i: int| 0 <= i < SOURCE_COUNT ==> (#[trigger] self.next_eligible@[i]) is None
        &&& forall|i: int| 0 <= i < SOURCE_COUNT ==> #[trigger] self.failures@[i] == 0
    }

    /// Records the start of a refresh and says which providers to ask, or why none.
    ///
    /// The attempt is recorded before any provider answers, so that an abandoned refresh still
    /// holds back the next one.
    pub fn begin(&mut self, now: Moment, requested_generation: u64) -> (plan: Result<
        RefreshPlan,
        &'static str,
    >)
        requires
            old(self).wf(),
            reaches(now, REFRESH_INTERVAL_SECONDS as int),
        ensures
            final(self).wf(),
            match plan {
                Ok(plan) => {
                    &&& old(self).may_begin(now, requested_generation)
                    &&& plan.sources@ == old(self).planned(now, requested_generation)
                    &&& plan.full_refresh == old(self).owes_full_refresh(requested_generation)
                    &&& plan.generation == requested_generation
                    &&& begun(*old(self), *final(self), now, requested_generation)
                },
                Err(reason) => {
                    &&& !old(self).may_begin(now, requested_generation)
                    &&& reason@ == if old(self).too_recent(now) {
                        "Refresh skipped: minimum interval since the last attempt has not elapsed."@
                    } else {
                        "Refresh skipped: all providers are waiting before another attempt."@
                    }
                    &&& *final(self) == *old(self)
                },
            },
    {
        let interval = REFRESH_INTERVAL_SECONDS as u128 * NANOS_PER_SECOND;
        if let Some(last) = self.last_attempt {
            if now.since(last) < interval {
                return Err(
                    "Refresh skipped: minimum interval since the last attempt has not elapsed.",
                );
            }
        }
        let full_refresh = requested_generation != self.completed_generation;
        let start: usize = if full_refresh {
            0
        } else {
            self.next_source
        };
        let mut sources: Vec<UpstreamSource> = Vec::new();
        let mut places: usize = 0;
        while places < SOURCE_COUNT && (full_refresh || sources.len() == 0)
            invariant
                places <= SOURCE_COUNT,
                start < SOURCE_COUNT,
                *self == *old(self),
                sources@ == self.eligible_from(now, start as int, places as nat),
                !full_refresh ==> sources@.len() <= 1,
            decreases SOURCE_COUNT - places,
        {
            let source = UpstreamSource::at((start + places) % SOURCE_COUNT);
            if self.is_eligible(source, now) {
                sources.push(source);
            }
            places += 1;
        }
        proof {
            self.lemma_eligible_prefix(now, start as int, places as nat, SOURCE_COUNT as nat);
            assert(sources@ =~= self.planned(now, requested_generation));
        }
        if sources.len() == 0 {
            return Err("Refresh skipped: all providers are waiting before another attempt.");
        }
        let again = now.add_seconds(REFRESH_INTERVAL_SECONDS as u64);
        let ghost before = *self;
        self.last_attempt = Some(now);
        let mut i: usize = 0;
        while i < sources.len()
            invariant
                i <= sources@.len(),
                before == *old(self),
                before.wf(),
                again == later(now, REFRESH_INTERVAL_SECONDS as int),
                self.last_attempt == Some(now),
                self.failures == before.failures,
                self.completed_generation == before.completed_generation,
                self.next_source < SOURCE_COUNT,
                i > 0 ==> self.next_source == (sources@[i - 1].position() + 1)
                    % SOURCE_COUNT as nat,
                forall|source: UpstreamSource|
                    #![trigger self.next_eligible@[source.position() as int]]
                    self.next_eligible@[source.position() as int] == if sources@.take(
                        i as int,
                    ).contains(source) {
                        Some(again)
                    } else {
                        before.next_eligible@[source.position() as int]
                    },
            decreases sources@.len() - i,
        {
            let source = sources[i];
            let index = source.index();
            let ghost shorter = sources@.take(i as int);
            let ghost longer = sources@.take(i + 1);
            self.next_eligible[index] = Some(again);
            self.next_source = (index + 1) % SOURCE_COUNT;
            proof {
                assert(longer =~= shorter.push(source));
                assert forall|other: UpstreamSource|
                    longer.contains(other) <==> shorter.contains(other) || other == source by {
                    if other == source {
                        assert(longer[i as int] == source);
                    }
                    if shorter.contains(other) {
                        let j = choose|j: int| 0 <= j < shorter.len() && shorter[j] == other;
                        assert(longer[j] == other);
                    }
                }
            }
            i += 1;
        }
        assert(sources@.take(i as int) =~= sources@);
        Ok(RefreshPlan { sources, full_refresh, generation: requested_generation })
    }

    /// Whether a provider may be asked.
    fn is_eligible(&self, source: UpstreamSource, now: Moment) -> (yes: bool)
        ensures
            yes == self.eligible(source, now),
    {
        match self.next_eligible[source.index()] {
            Some(moment) => now.nanos >= moment.nanos,
            None => true,
        }
    }

    /// Looking at more places only appends.
    proof fn lemma_eligible_prefix(self, now: Moment, start: int, fewer: nat, more: nat)
        requires
            fewer <= more,
        ensures
            self.eligible_from(now, start, fewer).is_prefix_of(
                self.eligible_from(now, start, more),
            ),
        decreases more,
    {
        if fewer < more {
            self.lemma_eligible_prefix(now, start, fewer, (more - 1) as nat);
        }
    }

    /// Records how the asked providers answered, at the moment the batch completed.
    pub fn complete(
        &mut self,
        plan: &RefreshPlan,
        results: &[Option<AttemptResult>; 4],
        now: Moment,
        now_unix: i64,
    )
        requires
            old(self).wf(),
            reaches(now, LONGEST_BACKOFF_SECONDS as int),
        ensures
            final(self).wf(),
            completed(*old(self), *final(self), *plan, results@, now, now_unix),
    {
        let mut place: usize = 0;
        while place < SOURCE_COUNT
            invariant
                place <= SOURCE_COUNT,
                reaches(now, LONGEST_BACKOFF_SECONDS as int),
                self.next_source == old(self).next_source,
                self.last_attempt == old(self).last_attempt,
                self.completed_generation == old(self).completed_generation,
                forall|i: int|
                    #![trigger self.failures@[i]]
                    #![trigger self.next_eligible@[i]]
                    place <= i < SOURCE_COUNT ==> self.failures@[i] == old(self).failures@[i]
                        && self.next_eligible@[i] == old(self).next_eligible@[i],
                forall|i: int|
                    #![trigger self.failures@[i]]
                    #![trigger self.next_eligible@[i]]
                    0 <= i < place ==> answered(
                        *old(self),
                        *self,
                        i,
                        results@[i],
                        now,
                        now_unix,
                    ),
            decreases SOURCE_COUNT - place,
        {
            let ghost before = *self;
            match results[place] {
                Some(AttemptResult::Succeeded) => {
                    self.failures[place] = 0;
                },
                Some(AttemptResult::Failed { retry_after }) => {
                    let failures = self.failures[place].saturating_add(1);
                    self.failures[place] = failures;
                    self.next_eligible[place] = Some(
                        retry_deadline(now, now_unix, failures, retry_after),
                    );
                },
                None => {},
            }
            assert(answered(
                *old(self),
                *self,
                place as int,
                results@[place as int],
                now,
                now_unix,
            ));
            assert forall|i: int| 0 <= i < place implies answered(
                *old(self),
                *self,
                i,
                results@[i],
                now,
                now_unix,
            ) by {
                assert(self.failures@[i] == before.failures@[i]);
                assert(self.next_eligible@[i] == before.next_eligible@[i]);
            }
            place += 1;
        }
        if plan.full_refresh {
            self.completed_generation = plan.generation;
        }
    }
}

impl Default for RefreshCoordinator {
    fn default() -> (coordinator: Self)
        ensures
            coordinator.fresh(),
            coordinator.wf(),
    {
        RefreshCoordinator {
            next_source: 0,
            last_attempt: None,
            next_eligible: [None, None, None, None],
            failures: [0, 0, 0, 0],
            completed_generation: 0,
        }
    }
}

/// When a provider may be asked again after a failure.
fn retry_deadline(
    now: Moment,
    now_unix: i64,
    failures: u32,
    hint: Option<RetryAfter>,
) -> (deadline: Moment)
    requires
        reaches(now, LONGEST_BACKOFF_SECONDS as int),
    ensures
        deadline == retry_moment(now, now_unix, failures as int, hint),
{
    let backoff: u64 = match failures {
        0 | 1 => 10,
        2 => 20,
        3 => 40,
        4 => 80,
        5 => 160,
        _ => LONGEST_BACKOFF_SECONDS,
    };
    let wish: u64 = match hint {
        Some(RetryAfter::Delay(count)) => count,
        Some(RetryAfter::At(time)) => seconds_until(time, now_unix),
        None => 0,
    };
    if wish > backoff {
        match now.checked_add_seconds(wish) {
            Some(deadline) => deadline,
            None => now.add_seconds(backoff),
        }
    } else {
        now.add_seconds(backoff)
    }
}

/// The seconds from now to a time, at most what a number can hold, or 0.
fn seconds_until(time: u64, now_unix: i64) -> (count: u64)
    ensures
        count == if time <= now_unix {
            0
        } else if time - now_unix > u64::MAX {
            u64::MAX as int
        } else {
            time - now_unix
        },
{
    if now_unix >= 0 {
        time.saturating_sub(now_unix as u64)
    } else {
        let before_epoch = -(now_unix as i128);
        time.saturating_add(before_epoch as u64)
    }
}

/// How the schedule changes where a refresh begins.
pub open spec fn begun(
    before: RefreshCoordinator,
    after: RefreshCoordinator,
    now: Moment,
    generation: u64,
) -> bool {
    let planned = before.planned(now, generation);
    &&& after.last_attempt == Some(now)
    &&& after.completed_generation == before.completed_generation
    &&& after.failures == before.failures
    &&& after.next_source == (planned.last().position() + 1) % SOURCE_COUNT as nat
    &&& forall|source: UpstreamSource|
        #![trigger after.next_eligible@[source.position() as int]]
        after.next_eligible@[source.position() as int] == if planned.contains(source) {
            Some(later(now, REFRESH_INTERVAL_SECONDS as int))
        } else {
            before.next_eligible@[source.position() as int]
        }
}

/// How the schedule of one provider changes by its answer.
pub open spec fn answered(
    before: RefreshCoordinator,
    after: RefreshCoordinator,
    place: int,
    result: Option<AttemptResult>,
    now: Moment,
    now_unix: i64,
) -> bool {
    match result {
        Some(AttemptResult::Succeeded) => {
            &&& after.failures@[place] == 0
            &&& after.next_eligible@[place] == before.next_eligible@[place]
        },
        Some(AttemptResult::Failed { retry_after }) => {
            &&& after.failures@[place] == if before.failures@[place] < u32::MAX {
                before.failures@[place] + 1
            } else {
                u32::MAX as int
            }
            &&& after.next_eligible@[place] == Some(
                retry_moment(now, now_unix, after.failures@[place] as int, retry_after),
            )
        },
        None => {
            &&& after.failures@[place] == before.failures@[place]
            &&& after.next_eligible@[place] == before.next_eligible@[place]
        },
    }
}

/// How the schedule changes where a refresh completes. Only a full batch serves an activation:
/// the one that its plan was made for.
pub open spec fn completed(
    before: RefreshCoordinator,
    after: RefreshCoordinator,
    plan: RefreshPlan,
    results: Seq<Option<AttemptResult>>,
    now: Moment,
    now_unix: i64,
) -> bool {
    &&& after.next_source == before.next_source
    &&& after.last_attempt == before.last_attempt
    &&& after.completed_generation == if plan.full_refresh {
        plan.generation
    } else {
        before.completed_generation
    }
    &&& forall|i: int|
        0 <= i < SOURCE_COUNT ==> #[trigger] answered(
            before,
            after,
            i,
            results[i],
            now,
            now_unix,
        )
}

/// A provider that is to be left alone is not asked, and a plan names no provider twice.
pub proof fn law_cooling_providers_are_not_asked(
    coordinator: RefreshCoordinator,
    now: Moment,
    generation: u64,
)
    requires
        coordinator.wf(),
    ensures
        forall|i: int|
            0 <= i < coordinator.planned(now, generation).len() ==> coordinator.eligible(
                #[trigger] coordinator.planned(now, generation)[i],
                now,
            ),
        coordinator.planned(now, generation).no_duplicates(),
{
    lemma_eligible_places(coordinator, now, 0, SOURCE_COUNT as nat);
    lemma_eligible_places(coordinator, now, coordinator.next_source as int, SOURCE_COUNT as nat);
}

/// The eligible providers of some places may be asked, stand among these places and are distinct.
proof fn lemma_eligible_places(
    coordinator: RefreshCoordinator,
    now: Moment,
    start: int,
    places: nat,
)
    requires
        0 <= start < SOURCE_COUNT,
        places <= SOURCE_COUNT,
    ensures
        forall|i: int|
            0 <= i < coordinator.eligible_from(now, start, places).len() ==> {
                &&& coordinator.eligible(
                    #[trigger] coordinator.eligible_from(now, start, places)[i],
                    now,
                )
                &&& among(coordinator.eligible_from(now, start, places)[i], start, places)
            },
        forall|source: UpstreamSource|
            among(source, start, places) && coordinator.eligible(source, now)
                ==> #[trigger] coordinator.eligible_from(now, start, places).contains(source),
        coordinator.eligible_from(now, start, places).no_duplicates(),
    decreases places,
{
    if places > 0 {
        let fewer = (places - 1) as nat;
        lemma_eligible_places(coordinator, now, start, fewer);
        let before = coordinator.eligible_from(now, start, fewer);
        let after = coordinator.eligible_from(now, start, places);
        let newest = all_sources()[(start + fewer) % SOURCE_COUNT as int];
        assert(newest.position() == (start + fewer) % SOURCE_COUNT as int);
        assert forall|source: UpstreamSource|
            among(source, start, places) && coordinator.eligible(
                source,
                now,
            ) implies #[trigger] after.contains(source) by {
            if source == newest {
                assert(after[before.len() as int] == source);
            } else {
                assert(among(source, start, fewer));
                assert(before.contains(source));
                let i = choose|i: int| 0 <= i < before.len() && before[i] == source;
                assert(after[i] == source);
            }
        }
        assert forall|i: int| 0 <= i < after.len() implies among(#[trigger] after[i], start, places)
            && coordinator.eligible(after[i], now) by {
            if i < before.len() {
                assert(after[i] == before[i]);
            }
        }
    }
}

/// Whether a provider stands among some places counted round from a start.
spec fn among(source: UpstreamSource, start: int, places: nat) -> bool {
    places > (source.position() - start) % SOURCE_COUNT as int
}

/// A full batch asks every provider that may be asked, and no other, in configured order.
pub proof fn law_full_batch_asks_all_eligible(
    coordinator: RefreshCoordinator,
    now: Moment,
    generation: u64,
    source: UpstreamSource,
)
    requires
        coordinator.owes_full_refresh(generation),
    ensures
        coordinator.planned(now, generation).contains(source) <==> coordinator.eligible(
            source,
            now,
        ),
        forall|i: int, j: int|
            0 <= i < j < coordinator.planned(now, generation).len()
                ==> (#[trigger] coordinator.planned(now, generation)[i]).position()
                < (#[trigger] coordinator.planned(now, generation)[j]).position(),
{
    lemma_eligible_places(coordinator, now, 0, SOURCE_COUNT as nat);
    lemma_eligible_in_order(coordinator, now, SOURCE_COUNT as nat);
}

proof fn lemma_eligible_in_order(coordinator: RefreshCoordinator, now: Moment, places: nat)
    requires
        places <= SOURCE_COUNT,
    ensures
        forall|i: int, j: int|
            0 <= i < j < coordinator.eligible_from(now, 0, places).len()
                ==> (#[trigger] coordinator.eligible_from(now, 0, places)[i]).position()
                < (#[trigger] coordinator.eligible_from(now, 0, places)[j]).position(),
        forall|i: int|
            0 <= i < coordinator.eligible_from(now, 0, places).len()
                ==> (#[trigger] coordinator.eligible_from(now, 0, places)[i]).position() < places,
    decreases places,
{
    if places > 0 {
        let fewer = (places - 1) as nat;
        lemma_eligible_in_order(coordinator, now, fewer);
        let before = coordinator.eligible_from(now, 0, fewer);
        let after = coordinator.eligible_from(now, 0, places);
        assert(all_sources()[fewer as int].position() == fewer);
        assert forall|i: int| 0 <= i < after.len() implies (#[trigger] after[i]).position()
            < places by {
            if i < before.len() {
                assert(after[i] == before[i]);
            }
        }
        assert forall|i: int, j: int| 0 <= i < j < after.len() implies (
        #[trigger] after[i]).position() < (#[trigger] after[j]).position() by {
            assert(after[i] == before[i]);
            if j < before.len() {
                assert(after[j] == before[j]);
            }
        }
    }
}

/// Whether no provider waits longer than the last attempt asks for.
pub open spec fn waits_for_attempts_only(coordinator: RefreshCoordinator) -> bool {
    forall|source: UpstreamSource|
        (#[trigger] coordinator.next_eligible@[source.position() as int]) matches Some(moment)
            ==> {
            &&& coordinator.last_attempt matches Some(last)
            &&& moment.nanos <= last.nanos + seconds(REFRESH_INTERVAL_SECONDS as int)
        }
}

/// Where no provider waits for more than the last attempt, each refresh that serves no activation
/// asks the one provider next in turn, and the turn passes on before the provider has answered.
pub proof fn law_rotation_takes_turns(
    before: RefreshCoordinator,
    after: RefreshCoordinator,
    now: Moment,
    generation: u64,
)
    requires
        before.wf(),
        waits_for_attempts_only(before),
        !before.owes_full_refresh(generation),
        !before.too_recent(now),
    ensures
        before.planned(now, generation) == seq![all_sources()[before.next_source as int]],
        begun(before, after, now, generation) ==> {
            &&& after.next_source == (before.next_source + 1) % SOURCE_COUNT as int
            &&& waits_for_attempts_only(after)
        },
{
    let start = before.next_source as int;
    let source = all_sources()[start];
    assert(source.position() == start);
    assert(before.eligible(source, now));
    reveal_with_fuel(RefreshCoordinator::eligible_from, 2);
    assert(before.eligible_from(now, start, 1) =~= seq![source]);
    before.lemma_eligible_prefix(now, start, 1, SOURCE_COUNT as nat);
    assert(before.planned(now, generation) =~= seq![source]);
    if begun(before, after, now, generation) {
        assert forall|other: UpstreamSource| (
        #[trigger] after.next_eligible@[other.position() as int]) matches Some(moment)
            ==> moment.nanos <= now.nanos + seconds(REFRESH_INTERVAL_SECONDS as int) by {
            assert(before.next_eligible@[other.position() as int] matches Some(moment) ==> {
                &&& before.last_attempt matches Some(last)
                &&& moment.nanos <= last.nanos + seconds(REFRESH_INTERVAL_SECONDS as int)
            });
        }
    }
}

/// Completing a refresh leaves an activation pending that came after its plan was made.
pub proof fn law_activation_during_a_batch_survives(
    before: RefreshCoordinator,
    after: RefreshCoordinator,
    plan: RefreshPlan,
    results: Seq<Option<AttemptResult>>,
    now: Moment,
    now_unix: i64,
    activation: u64,
)
    requires
        completed(before, after, plan, results, now, now_unix),
        before.owes_full_refresh(activation),
        activation != plan.generation,
    ensures
        after.owes_full_refresh(activation),
{
}

/// A full batch serves the activation that its plan was made for, however the providers answer.
pub proof fn law_full_batch_serves_its_activation(
    before: RefreshCoordinator,
    after: RefreshCoordinator,
    plan: RefreshPlan,
    results: Seq<Option<AttemptResult>>,
    now: Moment,
    now_unix: i64,
)
    requires
        completed(before, after, plan, results, now, now_unix),
        plan.full_refresh,
    ensures
        !after.owes_full_refresh(plan.generation),
{
}

/// A provider that failed is left alone for at least its backoff and for at least the delay it
/// asked for, where that is representable; one without a result keeps its place in the schedule.
pub proof fn law_failures_hold_a_provider_back(
    before: RefreshCoordinator,
    after: RefreshCoordinator,
    plan: RefreshPlan,
    results: Seq<Option<AttemptResult>>,
    now: Moment,
    now_unix: i64,
    source: UpstreamSource,
    later_on: Moment,
)
    requires
        completed(before, after, plan, results, now, now_unix),
        reaches(now, LONGEST_BACKOFF_SECONDS as int),
    ensures
        results[source.position() as int] matches Some(AttemptResult::Failed { retry_after })
            ==> after.eligible(source, later_on) ==> {
            &&& later_on.nanos >= now.nanos + seconds(
                backoff_seconds(after.failures@[source.position() as int] as int),
            )
            &&& retry_after matches Some(hint) ==> reaches(now, hinted_seconds(hint, now_unix))
                ==> later_on.nanos >= now.nanos + seconds(hinted_seconds(hint, now_unix))
        },
        results[source.position() as int] is None ==> (after.eligible(source, later_on)
            <==> before.eligible(source, later_on)),
{
    assert(answered(
        before,
        after,
        source.position() as int,
        results[source.position() as int],
        now,
        now_unix,
    ));
}

/// A success resets the backoff: the next failure of the provider counts as its first.
pub proof fn law_recovery_resets_the_backoff(
    before: RefreshCoordinator,
    recovered: RefreshCoordinator,
    recovery_plan: RefreshPlan,
    recovery: Seq<Option<AttemptResult>>,
    recovery_moment: Moment,
    recovery_unix: i64,
    again: RefreshCoordinator,
    failed: RefreshCoordinator,
    failure_plan: RefreshPlan,
    failure: Seq<Option<AttemptResult>>,
    failure_moment: Moment,
    failure_unix: i64,
    source: UpstreamSource,
)
    requires
        completed(before, recovered, recovery_plan, recovery, recovery_moment, recovery_unix),
        recovery[source.position() as int] == Some(AttemptResult::Succeeded),
        again.failures@[source.position() as int] == recovered.failures@[source.position() as int],
        completed(again, failed, failure_plan, failure, failure_moment, failure_unix),
        failure[source.position() as int] == Some(
            AttemptResult::Failed { retry_after: None },
        ),
    ensures
        failed.next_eligible@[source.position() as int] == Some(
            later(failure_moment, backoff_seconds(1)),
        ),
{
    let place = source.position() as int;
    assert(answered(before, recovered, place, recovery[place], recovery_moment, recovery_unix));
    assert(answered(again, failed, place, failure[place], failure_moment, failure_unix));
}

/// The backoff doubles with each failure up to its limit.
pub proof fn law_backoff_doubles(failures: int)
    requires
        failures >= 1,
    ensures
        backoff_seconds(1) == REFRESH_INTERVAL_SECONDS,
        backoff_seconds(failures + 1) == if 2 * backoff_seconds(failures)
            < LONGEST_BACKOFF_SECONDS {
            2 * backoff_seconds(failures)
        } else {
            LONGEST_BACKOFF_SECONDS as int
        },
{
}

/// Without a wish, or with one that is not longer than the backoff or not representable, a failed
/// provider waits for its backoff.
pub proof fn law_impossible_wishes_fall_back(
    now: Moment,
    now_unix: i64,
    failures: int,
    hint: RetryAfter,
)
    ensures
        retry_moment(now, now_unix, failures, None) == later(now, backoff_seconds(failures)),
        hinted_seconds(hint, now_unix) <= backoff_seconds(failures) || !reaches(
            now,
            hinted_seconds(hint, now_unix),
        ) ==> retry_moment(now, now_unix, failures, Some(hint)) == later(
            now,
            backoff_seconds(failures),
        ),
        hinted_seconds(hint, now_unix) > backoff_seconds(failures) && reaches(
            now,
            hinted_seconds(hint, now_unix),
        ) ==> retry_moment(now, now_unix, failures, Some(hint)) == later(
            now,
            hinted_seconds(hint, now_unix),
        ),
{
}

/// A provider may be asked from the moment on until which it is to be left alone, and at any moment
/// where there is none.
pub proof fn law_providers_wait_until_their_moment(
    coordinator: RefreshCoordinator,
    source: UpstreamSource,
    now: Moment,
)
    ensures
        coordinator.eligible(source, now) <==> {
            ||| coordinator.next_eligible@[source.position() as int] is None
            ||| coordinator.next_eligible@[source.position() as int]->0.nanos <= now.nanos
        },
{
}

/// A refresh begins from ten seconds after the start of the last one on, where any provider may be
/// asked, and at no other time.
pub proof fn law_refreshes_begin_where_a_provider_may_be_asked(
    coordinator: RefreshCoordinator,
    now: Moment,
    generation: u64,
)
    requires
        coordinator.wf(),
    ensures
        coordinator.too_recent(now) <==> (coordinator.last_attempt is Some && now.nanos
            < coordinator.last_attempt->0.nanos + 10_000_000_000),
        coordinator.may_begin(now, generation) <==> {
            &&& coordinator.last_attempt is None || now.nanos
                >= coordinator.last_attempt->0.nanos + 10_000_000_000
            &&& exists|source: UpstreamSource| #[trigger] coordinator.eligible(source, now)
        },
{
    let start = if coordinator.owes_full_refresh(generation) {
        0
    } else {
        coordinator.next_source as int
    };
    lemma_eligible_places(coordinator, now, start, SOURCE_COUNT as nat);
    let found = coordinator.eligible_from(now, start, SOURCE_COUNT as nat);
    if found.len() > 0 {
        assert(coordinator.eligible(found[0], now));
    }
    if exists|source: UpstreamSource| #[trigger] coordinator.eligible(source, now) {
        let source = choose|source: UpstreamSource| #[trigger] coordinator.eligible(source, now);
        assert(among(source, start, SOURCE_COUNT as nat));
        assert(found.contains(source));
    }
}

/// A full batch is owed for every activation but the one that was served last.
pub proof fn law_each_activation_is_owed_a_full_batch(
    coordinator: RefreshCoordinator,
    generation: u64,
)
    ensures
        coordinator.owes_full_refresh(generation) <==> generation
            != coordinator.completed_generation,
{
}

/// Where no full batch is owed, one provider is asked: of those that may be, the first from the one
/// in turn on. Where none may be asked, none is.
pub proof fn law_rotation_asks_the_next_eligible_provider(
    coordinator: RefreshCoordinator,
    now: Moment,
    generation: u64,
    places: nat,
)
    requires
        coordinator.wf(),
        generation == coordinator.completed_generation,
        places <= 4,
        forall|k: int|
            0 <= k < places ==> !coordinator.eligible(
                #[trigger] all_sources()[(coordinator.next_source + k) % 4],
                now,
            ),
    ensures
        places == 4 ==> coordinator.planned(now, generation).len() == 0,
        places < 4 && coordinator.eligible(
            all_sources()[(coordinator.next_source + places) % 4],
            now,
        ) ==> coordinator.planned(now, generation) == seq![
            all_sources()[(coordinator.next_source + places) % 4],
        ],
{
    let start = coordinator.next_source as int;
    lemma_none_eligible(coordinator, now, start, places);
    if places < 4 && coordinator.eligible(all_sources()[(start + places) % 4], now) {
        let source = all_sources()[(start + places) % 4];
        assert(coordinator.eligible_from(now, start, (places + 1) as nat) =~= seq![source]);
        coordinator.lemma_eligible_prefix(now, start, (places + 1) as nat, SOURCE_COUNT as nat);
        assert(coordinator.planned(now, generation) =~= seq![source]);
    }
}

proof fn lemma_none_eligible(
    coordinator: RefreshCoordinator,
    now: Moment,
    start: int,
    places: nat,
)
    requires
        forall|k: int|
            0 <= k < places ==> !coordinator.eligible(
                #[trigger] all_sources()[(start + k) % 4],
                now,
            ),
    ensures
        coordinator.eligible_from(now, start, places).len() == 0,
    decreases places,
{
    if places > 0 {
        lemma_none_eligible(coordinator, now, start, (places - 1) as nat);
        assert(!coordinator.eligible(all_sources()[(start + (places - 1)) % 4], now));
    }
}

/// A refresh that begins is recorded as an attempt at its moment. The providers that it asks are
/// left alone for ten seconds, whatever they answer; the others may be asked as before. The turn
/// passes to the provider behind the last one that is asked. What is known of failures and of
/// served activations stays as it was.
pub proof fn law_begun_refreshes_hold_back_whom_they_ask(
    before: RefreshCoordinator,
    after: RefreshCoordinator,
    now: Moment,
    generation: u64,
    source: UpstreamSource,
    later_on: Moment,
)
    requires
        begun(before, after, now, generation),
        reaches(now, REFRESH_INTERVAL_SECONDS as int),
    ensures
        after.last_attempt == Some(now),
        before.planned(now, generation).contains(source) ==> (after.eligible(source, later_on)
            <==> later_on.nanos >= now.nanos + 10_000_000_000),
        !before.planned(now, generation).contains(source) ==> (after.eligible(source, later_on)
            <==> before.eligible(source, later_on)),
        after.next_source == (before.planned(now, generation).last().position() + 1) % 4,
        after.failures == before.failures,
        after.completed_generation == before.completed_generation,
{
    let place = source.position() as int;
    assert(after.next_eligible@[place] == if before.planned(now, generation).contains(source) {
        Some(later(now, REFRESH_INTERVAL_SECONDS as int))
    } else {
        before.next_eligible@[place]
    });
}

/// A provider that succeeded may be asked at exactly the moments at which it could be asked before
/// the batch completed, however often it had failed, and it has no failures any more.
pub proof fn law_recovered_providers_wait_no_longer(
    before: RefreshCoordinator,
    after: RefreshCoordinator,
    plan: RefreshPlan,
    results: Seq<Option<AttemptResult>>,
    now: Moment,
    now_unix: i64,
    source: UpstreamSource,
    later_on: Moment,
)
    requires
        completed(before, after, plan, results, now, now_unix),
        results[source.position() as int] == Some(AttemptResult::Succeeded),
    ensures
        after.eligible(source, later_on) <==> before.eligible(source, later_on),
        after.failures@[source.position() as int] == 0,
{
    let place = source.position() as int;
    assert(answered(before, after, place, results[place], now, now_unix));
}

/// A provider that was asked and succeeded may be asked again from ten seconds after the start of
/// the attempt on, however often it had failed before and however long the batch took.
pub proof fn law_success_is_asked_again_after_the_interval(
    idle: RefreshCoordinator,
    asked: RefreshCoordinator,
    start: Moment,
    generation: u64,
    done: RefreshCoordinator,
    plan: RefreshPlan,
    results: Seq<Option<AttemptResult>>,
    end: Moment,
    end_unix: i64,
    source: UpstreamSource,
    later_on: Moment,
)
    requires
        begun(idle, asked, start, generation),
        reaches(start, REFRESH_INTERVAL_SECONDS as int),
        idle.planned(start, generation).contains(source),
        completed(asked, done, plan, results, end, end_unix),
        results[source.position() as int] == Some(AttemptResult::Succeeded),
    ensures
        done.eligible(source, later_on) <==> later_on.nanos >= start.nanos + 10_000_000_000,
{
    law_begun_refreshes_hold_back_whom_they_ask(idle, asked, start, generation, source, later_on);
    law_recovered_providers_wait_no_longer(
        asked,
        done,
        plan,
        results,
        end,
        end_unix,
        source,
        later_on,
    );
}

/// A provider that failed may be asked again after its backoff, counted from the moment the batch
/// completed; or after the delay that it asked for, where that is longer and representable. Nothing
/// else holds it back longer, and the failure is counted.
pub proof fn law_failed_providers_wait_for_backoff_or_wish(
    before: RefreshCoordinator,
    after: RefreshCoordinator,
    plan: RefreshPlan,
    results: Seq<Option<AttemptResult>>,
    now: Moment,
    now_unix: i64,
    source: UpstreamSource,
    wish: Option<RetryAfter>,
    wished_seconds: int,
    later_on: Moment,
)
    requires
        completed(before, after, plan, results, now, now_unix),
        reaches(now, LONGEST_BACKOFF_SECONDS as int),
        results[source.position() as int] == Some(AttemptResult::Failed { retry_after: wish }),
        match wish {
            None => wished_seconds == 0,
            Some(RetryAfter::Delay(count)) => wished_seconds == count,
            Some(RetryAfter::At(time)) => wished_seconds == if time >= now_unix {
                time - now_unix
            } else {
                0
            },
        },
    ensures
        before.failures@[source.position() as int] < u32::MAX
            ==> after.failures@[source.position() as int] == before.failures@[source.position()
            as int] + 1,
        before.failures@[source.position() as int] == u32::MAX
            ==> after.failures@[source.position() as int] == u32::MAX,
        ({
            let backoff = backoff_seconds(after.failures@[source.position() as int] as int);
            let honoured = wished_seconds > backoff && now.nanos + wished_seconds * 1_000_000_000
                <= LAST_MOMENT_NANOS;
            &&& !honoured ==> (after.eligible(source, later_on) <==> later_on.nanos >= now.nanos
                + backoff * 1_000_000_000)
            &&& honoured ==> (after.eligible(source, later_on) <==> later_on.nanos >= now.nanos
                + wished_seconds * 1_000_000_000)
        }),
{
    let place = source.position() as int;
    assert(answered(before, after, place, results[place], now, now_unix));
}

/// The delays in seconds after the first failures in a row and after all further ones.
pub proof fn law_backoff_is_bounded(failures: int)
    requires
        failures >= 1,
    ensures
        10 <= backoff_seconds(failures) <= 300,
        failures <= 5 ==> backoff_seconds(failures) == 10 * pow(2, (failures - 1) as nat),
        failures >= 6 ==> backoff_seconds(failures) == 300,
{
    reveal_with_fuel(pow, 6);
}

/// Completing a refresh changes neither the turn nor the record of the last attempt, nor anything
/// of a provider without an answer. Only a full batch changes which activation was served last: to
/// its own.
pub proof fn law_completion_touches_answers_only(
    before: RefreshCoordinator,
    after: RefreshCoordinator,
    plan: RefreshPlan,
    results: Seq<Option<AttemptResult>>,
    now: Moment,
    now_unix: i64,
    source: UpstreamSource,
)
    requires
        completed(before, after, plan, results, now, now_unix),
    ensures
        after.next_source == before.next_source,
        after.last_attempt == before.last_attempt,
        plan.full_refresh ==> after.completed_generation == plan.generation,
        !plan.full_refresh ==> after.completed_generation == before.completed_generation,
        results[source.position() as int] is None ==> {
            &&& after.failures@[source.position() as int] == before.failures@[source.position()
                as int]
            &&& after.next_eligible@[source.position() as int]
                == before.next_eligible@[source.position() as int]
        },
{
    let place = source.position() as int;
    assert(answered(before, after, place, results[place], now, now_unix));
}

/// A schedule without any attempt asks the first provider first, whenever it is asked, and all of
/// them for an activation.
pub proof fn law_first_refreshes_start_at_the_first_provider(
    coordinator: RefreshCoordinator,
    now: Moment,
    generation: u64,
)
    requires
        coordinator.fresh(),
    ensures
        coordinator.may_begin(now, generation),
        generation == 0 ==> coordinator.planned(now, generation) == seq![all_sources()[0]],
        generation != 0 ==> coordinator.planned(now, generation) == all_sources(),
        forall|source: UpstreamSource| #[trigger]
            coordinator.failures@[source.position() as int] == 0,
{
    assert forall|source: UpstreamSource| #[trigger] coordinator.eligible(source, now) by {
        assert(coordinator.next_eligible@[source.position() as int] is None);
    }
    law_refreshes_begin_where_a_provider_may_be_asked(coordinator, now, generation);
    assert(coordinator.eligible(UpstreamSource::CoinGecko, now));
    if generation == 0 {
        assert((coordinator.next_source + 0) % 4 == 0);
        law_rotation_asks_the_next_eligible_provider(coordinator, now, generation, 0);
    } else {
        reveal_with_fuel(RefreshCoordinator::eligible_from, 5);
        assert(coordinator.planned(now, generation) =~= all_sources());
    }
}

/// What can happen to the schedule.
pub enum ScheduleEvent {
    /// A refresh began.
    Begun { now: Moment, generation: u64 },
    /// A refresh was refused.
    Refused,
    /// The answers of a refresh came in.
    Completed {
        plan: RefreshPlan,
        results: Seq<Option<AttemptResult>>,
        now: Moment,
        now_unix: i64,
    },
}

/// Whether an event leads from one state of the schedule to another.
pub open spec fn leads(
    before: RefreshCoordinator,
    event: ScheduleEvent,
    after: RefreshCoordinator,
) -> bool {
    match event {
        ScheduleEvent::Begun { now, generation } => before.may_begin(now, generation) && begun(
            before,
            after,
            now,
            generation,
        ),
        ScheduleEvent::Refused => after == before,
        ScheduleEvent::Completed { plan, results, now, now_unix } => completed(
            before,
            after,
            plan,
            results,
            now,
            now_unix,
        ),
    }
}

/// Whether events lead through states of the schedule.
pub open spec fn history(states: Seq<RefreshCoordinator>, events: Seq<ScheduleEvent>) -> bool {
    &&& states.len() == events.len() + 1
    &&& forall|i: int|
        0 <= i < events.len() ==> leads(states[i], #[trigger] events[i], states[i + 1])
}

/// Whatever happens, the record of the last attempt does not go back behind an attempt.
proof fn lemma_last_attempt_does_not_go_back(
    states: Seq<RefreshCoordinator>,
    events: Seq<ScheduleEvent>,
    i: int,
    k: int,
)
    requires
        history(states, events),
        0 <= i < k <= events.len(),
        events[i] is Begun,
    ensures
        states[k].last_attempt matches Some(last) && last.nanos >= events[i]->Begun_now.nanos,
    decreases k,
{
    assert(leads(states[k - 1], events[k - 1], states[k]));
    if i < k - 1 {
        lemma_last_attempt_does_not_go_back(states, events, i, k - 1);
    }
}

/// In every history of the schedule, two refreshes begin at least the refresh interval apart.
pub proof fn law_no_history_has_close_attempts(
    states: Seq<RefreshCoordinator>,
    events: Seq<ScheduleEvent>,
    i: int,
    j: int,
)
    requires
        history(states, events),
        0 <= i < j < events.len(),
        events[i] is Begun,
        events[j] is Begun,
    ensures
        events[j]->Begun_now.nanos >= events[i]->Begun_now.nanos + seconds(
            REFRESH_INTERVAL_SECONDS as int,
        ),
{
    lemma_last_attempt_does_not_go_back(states, events, i, j);
    assert(leads(states[j], events[j], states[j + 1]));
}

} // verus!
