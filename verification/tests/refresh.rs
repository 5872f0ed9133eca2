use bitcoin_price_tracker::clock::Moment;
use bitcoin_price_tracker::errors::RetryAfter;
use bitcoin_price_tracker::refresh::{AttemptResult, RefreshCoordinator};
use bitcoin_price_tracker::sources::UpstreamSource;

const SECOND: u128 = 1_000_000_000;

const ALL: [UpstreamSource; 4] = [
    UpstreamSource::CoinGecko,
    UpstreamSource::Coinbase,
    UpstreamSource::Kraken,
    UpstreamSource::Gemini,
];

fn at(seconds: u128) -> Moment {
    Moment { nanos: seconds * SECOND }
}

fn failed() -> Option<AttemptResult> {
    Some(AttemptResult::Failed { retry_after: None })
}

fn hinted(hint: RetryAfter) -> Option<AttemptResult> {
    Some(AttemptResult::Failed { retry_after: Some(hint) })
}

#[test]
fn attempts_rotate_without_requiring_a_successful_snapshot() {
    let mut coordinator = RefreshCoordinator::default();
    let now = at(1_000);
    for (index, source) in ALL.into_iter().chain([UpstreamSource::CoinGecko]).enumerate() {
        let plan = coordinator
            .begin(Moment { nanos: now.nanos + index as u128 * 10 * SECOND }, 0)
            .unwrap();
        assert_eq!(plan.sources, [source]);
        assert!(!plan.full_refresh);
    }
}

#[test]
fn no_eligible_provider_does_not_consume_an_attempt_or_activation() {
    let now = at(1_000);
    let mut coordinator = RefreshCoordinator {
        next_eligible: [Some(at(1_020)); 4],
        ..Default::default()
    };
    assert!(coordinator.begin(now, 1).is_err());
    assert!(coordinator.last_attempt.is_none());
    let plan = coordinator.begin(at(1_020), 1).unwrap();
    assert!(plan.full_refresh);
    assert_eq!(plan.sources, ALL);
}

#[test]
fn refusals_are_worded_exactly_and_change_nothing() {
    let mut coordinator = RefreshCoordinator::default();
    coordinator.begin(at(100), 0).unwrap();
    let before = coordinator;
    assert_eq!(
        coordinator.begin(Moment { nanos: 110 * SECOND - 1 }, 0).unwrap_err(),
        "Refresh skipped: minimum interval since the last attempt has not elapsed."
    );
    assert_eq!(coordinator, before);
    assert!(coordinator.begin(at(50), 5).is_err());
    assert_eq!(coordinator, before);
    coordinator.next_eligible = [Some(at(500)); 4];
    let before = coordinator;
    assert_eq!(
        coordinator.begin(at(499), 0).unwrap_err(),
        "Refresh skipped: all providers are waiting before another attempt."
    );
    assert_eq!(coordinator, before);
    assert!(coordinator.begin(at(500), 0).is_ok());
}

#[test]
fn a_pending_activation_asks_every_eligible_provider() {
    let mut coordinator = RefreshCoordinator {
        next_source: 2,
        next_eligible: [None, Some(at(200)), None, Some(at(100))],
        ..Default::default()
    };
    let plan = coordinator.begin(at(100), 3).unwrap();
    assert!(plan.full_refresh);
    assert_eq!(plan.generation, 3);
    assert_eq!(
        plan.sources,
        [UpstreamSource::CoinGecko, UpstreamSource::Kraken, UpstreamSource::Gemini]
    );
    assert_eq!(coordinator.next_source, 0);
    assert_eq!(coordinator.last_attempt, Some(at(100)));
    assert_eq!(
        coordinator.next_eligible,
        [Some(at(110)), Some(at(200)), Some(at(110)), Some(at(110))]
    );
    assert_eq!(coordinator.completed_generation, 0);
}

#[test]
fn cooling_providers_are_passed_over() {
    let mut coordinator = RefreshCoordinator {
        next_source: 3,
        next_eligible: [Some(at(300)), None, None, Some(at(300))],
        ..Default::default()
    };
    let plan = coordinator.begin(at(100), 0).unwrap();
    assert_eq!(plan.sources, [UpstreamSource::Coinbase]);
    assert_eq!(coordinator.next_source, 2);
}

#[test]
fn completing_a_full_batch_serves_its_activation_only() {
    let mut coordinator = RefreshCoordinator::default();
    let plan = coordinator.begin(at(10), 1).unwrap();
    coordinator.complete(&plan, &[Some(AttemptResult::Succeeded); 4], at(11), 0);
    assert_eq!(coordinator.completed_generation, 1);
    let plan = coordinator.begin(at(20), 1).unwrap();
    assert!(!plan.full_refresh);
    coordinator.complete(&plan, &[None; 4], at(21), 0);
    assert_eq!(coordinator.completed_generation, 1);
    let plan = coordinator.begin(at(30), 2).unwrap();
    assert!(plan.full_refresh);
    assert_eq!(plan.sources, ALL);
}

#[test]
fn failures_back_off_and_recovery_resets() {
    let mut coordinator = RefreshCoordinator::default();
    let plan = coordinator.begin(at(10), 0).unwrap();
    for (count, delay) in [10, 20, 40, 80, 160, 300, 300, 300].into_iter().enumerate() {
        coordinator.complete(&plan, &[failed(), None, None, None], at(1_000), 0);
        assert_eq!(coordinator.failures[0], count as u32 + 1);
        assert_eq!(coordinator.next_eligible[0], Some(at(1_000 + delay)));
    }
    assert_eq!(coordinator.failures[1..], [0; 3]);
    coordinator.complete(&plan, &[Some(AttemptResult::Succeeded), None, None, None], at(2_000), 0);
    assert_eq!(coordinator.failures[0], 0);
    assert_eq!(coordinator.next_eligible[0], Some(at(1_300)));
    coordinator.complete(&plan, &[failed(), None, None, None], at(2_000), 0);
    assert_eq!(coordinator.next_eligible[0], Some(at(2_010)));
}

#[test]
fn failure_counts_do_not_overflow() {
    let mut coordinator = RefreshCoordinator::default();
    coordinator.failures = [u32::MAX; 4];
    let plan = coordinator.begin(at(10), 0).unwrap();
    coordinator.complete(&plan, &[failed(); 4], at(20), 0);
    assert_eq!(coordinator.failures, [u32::MAX; 4]);
    assert_eq!(coordinator.next_eligible, [Some(at(320)); 4]);
}

#[test]
fn longer_hints_are_honoured_and_impossible_ones_are_not() {
    let mut coordinator = RefreshCoordinator::default();
    let plan = coordinator.begin(at(10), 1).unwrap();
    coordinator.complete(
        &plan,
        &[
            hinted(RetryAfter::Delay(60)),
            hinted(RetryAfter::Delay(3)),
            hinted(RetryAfter::Delay(u64::MAX)),
            hinted(RetryAfter::At(1_700_000_075)),
        ],
        at(100),
        1_700_000_000,
    );
    assert_eq!(
        coordinator.next_eligible,
        [Some(at(160)), Some(at(110)), Some(at(110)), Some(at(175))]
    );
    coordinator.complete(
        &plan,
        &[
            hinted(RetryAfter::At(5)),
            hinted(RetryAfter::At(0)),
            hinted(RetryAfter::At(u64::MAX)),
            None,
        ],
        at(100),
        -5,
    );
    assert_eq!(
        coordinator.next_eligible,
        [Some(at(120)), Some(at(120)), Some(at(120)), Some(at(175))]
    );
}
