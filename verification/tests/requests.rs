use bitcoin_price_tracker::clock::Moment;
use bitcoin_price_tracker::errors::{ProviderError, ProviderErrorKind};
use bitcoin_price_tracker::handlers::{
    open_price_request, price_reply, update_presence, Inspection, LockOutcome, Opening, PriceReply,
    RefreshReport,
};
use bitcoin_price_tracker::models::source_contract::{LastAttempt, PriceStatus};
use bitcoin_price_tracker::models::{PresencePayload, StoredPriceState};
use bitcoin_price_tracker::presence::{active_viewer_count, Viewers};
use bitcoin_price_tracker::price::Price;
use bitcoin_price_tracker::pricing::{check_status, checked_price, read_body};
use bitcoin_price_tracker::refresh::RefreshCoordinator;
use bitcoin_price_tracker::snapshots::{ProviderAttempt, RefreshRecords};
use bitcoin_price_tracker::sources::UpstreamSource;
use bitcoin_price_tracker::storage::{
    initial_health, read_provider_health, read_snapshot, write_provider_health, write_snapshot,
    HealthRow, SnapshotRow, SourceRow,
};
use std::time::{Duration, UNIX_EPOCH};

const TEST_NOW: i64 = 1_700_000_000;

const SECOND: u128 = 1_000_000_000;

const ALL: [UpstreamSource; 4] = [
    UpstreamSource::CoinGecko,
    UpstreamSource::Coinbase,
    UpstreamSource::Kraken,
    UpstreamSource::Gemini,
];

#[derive(Clone)]
struct Fixture {
    status: u16,
    retry_after: Option<String>,
    body: String,
    times_out: bool,
    seconds: u64,
}

fn fixture(body: &str) -> Fixture {
    Fixture {
        status: 200,
        retry_after: None,
        body: body.to_string(),
        times_out: false,
        seconds: 0,
    }
}

fn limited(hint: &str) -> Fixture {
    Fixture { status: 429, retry_after: Some(hint.to_string()), ..fixture("{}") }
}

fn copy_head(head: &SnapshotRow) -> SnapshotRow {
    SnapshotRow {
        fetched_at_unix: head.fetched_at_unix,
        average_price: head.average_price,
        spread: head.spread,
        warnings_json: head.warnings_json.clone(),
        refreshed_source: head.refreshed_source.clone(),
    }
}

fn copy_row(row: &SourceRow) -> SourceRow {
    SourceRow {
        source: row.source.clone(),
        price_usd: row.price_usd,
        last_success_at_unix: row.last_success_at_unix,
        quote_kind: row.quote_kind.clone(),
    }
}

struct App {
    viewers: Viewers,
    generation: u64,
    coordinator: RefreshCoordinator,
    head: Option<SnapshotRow>,
    rows: Vec<SourceRow>,
    health: Vec<HealthRow>,
    unix: i64,
    now: Moment,
    providers: [Fixture; 4],
    requests: [usize; 4],
    writes_fail: bool,
    reads_fail: bool,
    busy: bool,
    activate_while_asking: bool,
}

impl App {
    fn new() -> App {
        App {
            viewers: Viewers::new(),
            generation: 0,
            coordinator: RefreshCoordinator::default(),
            head: None,
            rows: Vec::new(),
            health: write_provider_health(&initial_health()),
            unix: TEST_NOW,
            now: Moment { nanos: 1_000 * SECOND },
            providers: [
                fixture(r#"{"bitcoin":{"usd":100000.0}}"#),
                fixture(r#"{"data":{"base":"BTC","currency":"USD","amount":"100100.00"}}"#),
                fixture(r#"{"error":[],"result":{"XXBTZUSD":{"c":["100200.00","1"]}}}"#),
                fixture(r#"{"symbol":"BTCUSD","bid":"100300.00"}"#),
            ],
            requests: [0; 4],
            writes_fail: false,
            reads_fail: false,
            busy: false,
            activate_while_asking: false,
        }
    }

    fn restart(&mut self) {
        self.viewers = Viewers::new();
        self.generation = 0;
        self.coordinator = RefreshCoordinator::default();
    }

    fn advance(&mut self, seconds: u64) {
        self.unix += seconds as i64;
        self.advance_monotonic(seconds as u128 * SECOND);
    }

    fn advance_monotonic(&mut self, nanos: u128) {
        self.now = Moment { nanos: self.now.nanos + nanos };
    }

    fn presence(&mut self, active: bool) {
        self.presence_for("test-viewer", active);
    }

    fn presence_for(&mut self, id: &str, active: bool) {
        let payload = PresencePayload { session_id: id.to_string(), active };
        let reply =
            update_presence(&mut self.viewers, &mut self.generation, payload, self.now, 1000);
        assert_eq!(reply.status, 200);
    }

    fn set(&mut self, source: UpstreamSource, fixture: Fixture) {
        self.providers[source.index()] = fixture;
    }

    fn load(&self) -> Result<StoredPriceState, String> {
        if self.reads_fail {
            return Err("private error at /private/fixture.db".to_string());
        }
        let snapshot = match &self.head {
            Some(head) => Some(read_snapshot(copy_head(head), &self.rows)?),
            None => None,
        };
        let provider_health = read_provider_health(&self.health)?;
        Ok(StoredPriceState { snapshot, provider_health })
    }

    fn store(&mut self, records: &RefreshRecords) -> Result<(), String> {
        if self.writes_fail {
            return Err("private error at /private/fixture.db".to_string());
        }
        if let Some(snapshot) = &records.snapshot {
            let (head, rows) = write_snapshot(snapshot)?;
            self.head = Some(head);
            self.rows = rows;
        }
        for row in write_provider_health(&records.health) {
            self.health.retain(|known| known.source != row.source);
            self.health.push(row);
        }
        Ok(())
    }

    fn fetch(&mut self, source: UpstreamSource) -> ProviderAttempt {
        self.requests[source.index()] += 1;
        let answer = self.providers[source.index()].clone();
        let attempted_at_unix = self.unix;
        self.advance(answer.seconds);
        let result = if answer.times_out {
            Err(ProviderError::from_request(source, true, false, "late".to_string()))
        } else {
            check_status(source, answer.status, answer.retry_after.as_deref().map(str::as_bytes))
                .and_then(|()| read_body(source, answer.body.as_bytes()))
                .and_then(|reading| {
                    let number = reading.amount.parse::<f64>().ok();
                    let number = number.map(|amount| Price { bits: amount.to_bits() });
                    checked_price(source, &reading, number)
                })
                .map(|price| price.price_usd)
        };
        ProviderAttempt { source, attempted_at_unix, completed_at_unix: self.unix, result }
    }

    fn refresh(&mut self) -> RefreshReport {
        let active = active_viewer_count(&mut self.viewers, self.now);
        let lock = match open_price_request(active) {
            Opening::Reply(report) => return report,
            Opening::TryLock(lock) => lock,
        };
        let inspection = match lock.resolve(!self.busy) {
            LockOutcome::Reply(report) => return report,
            LockOutcome::Inspect(inspection) => inspection,
        };
        let inspected = self.load();
        let active = active_viewer_count(&mut self.viewers, self.now);
        let dispatched = match inspection.resolve(
            &mut self.coordinator,
            inspected,
            active,
            self.unix,
            self.now,
            self.generation,
        ) {
            Inspection::Reply(report) => return report,
            Inspection::Dispatch(dispatched) => dispatched,
        };
        if self.activate_while_asking {
            self.presence(false);
            self.presence(true);
        }
        let mut attempts = Vec::new();
        for source in ALL {
            if dispatched.planned_sources().contains(&source) {
                attempts.push(self.fetch(source));
            }
        }
        let saving = dispatched.complete(&mut self.coordinator, &attempts, self.now, self.unix);
        let stored = self.store(&saving.records);
        saving.resolve(stored)
    }

    fn price(&mut self) -> PriceReply {
        let report = self.refresh();
        let active = active_viewer_count(&mut self.viewers, self.now);
        price_reply(report, self.load(), self.unix, active)
    }
}

fn average(reply: &PriceReply) -> Option<f64> {
    let prices: Vec<f64> =
        reply.body.contributing_prices.iter().map(|price| f64::from_bits(price.bits)).collect();
    let mut average = *prices.first()?;
    for (index, price) in prices.iter().enumerate().skip(1) {
        average += (price - average) / (index + 1) as f64;
    }
    Some(average)
}

fn spread(reply: &PriceReply) -> Option<f64> {
    let (low, high) = reply.body.price_range?;
    Some(f64::from_bits(high.bits) - f64::from_bits(low.bits))
}

fn rows(reply: &PriceReply) -> Vec<(String, f64)> {
    reply
        .body
        .sources
        .iter()
        .map(|row| (row.quote.source.clone(), f64::from_bits(row.quote.price_usd.bits)))
        .collect()
}

fn skipped(reply: &PriceReply) -> &str {
    reply.body.refresh_skipped_reason.as_deref().unwrap()
}

#[test]
fn all_rate_limited_providers_wait_without_consuming_pending_activation() {
    for hint in [
        "60".to_string(),
        httpdate::fmt_http_date(UNIX_EPOCH + Duration::from_secs((TEST_NOW + 60) as u64)),
    ] {
        let mut app = App::new();
        for source in ALL {
            app.set(source, limited(&hint));
        }
        app.presence(true);
        assert_eq!(app.price().status, 503);
        app.presence(false);
        app.presence(true);
        for seconds in [10, 10, 10, 10, 10, 9] {
            app.advance(seconds);
            app.presence(true);
            for _ in 0..3 {
                assert!(skipped(&app.price()).contains("all providers"));
            }
            assert_eq!(app.requests, [1; 4]);
        }
        app.advance(1);
        app.set(UpstreamSource::CoinGecko, fixture(r#"{"bitcoin":{"usd":123000}}"#));
        let recovered = app.price();
        assert_eq!(recovered.status, 200);
        assert_eq!(average(&recovered), Some(123000.0));
        assert_eq!(app.requests, [2; 4]);
        app.set(UpstreamSource::CoinGecko, fixture("{}"));
        app.advance(10);
        app.presence(true);
        assert!(!app.price().body.refresh_succeeded);
        assert_eq!(app.requests, [3, 2, 2, 2]);
        app.advance(10);
        app.presence(false);
        app.presence(true);
        app.price();
        assert_eq!(app.requests[0], 4);
    }
}

#[test]
fn rate_limited_provider_does_not_block_healthy_rotation_or_lose_retry_on_write_failure() {
    let mut app = App::new();
    app.presence(true);
    app.price();
    app.writes_fail = true;
    app.set(UpstreamSource::CoinGecko, limited("120"));
    app.advance(10);
    app.presence(false);
    app.presence(true);
    let failed_write = app.price();
    assert!(!failed_write.body.refresh_succeeded);
    assert!(failed_write.body.warnings.iter().any(|text| text.contains("Failed to store")));
    assert_eq!(app.requests, [2; 4]);
    app.writes_fail = false;
    for _ in 0..4 {
        app.advance(10);
        app.presence(true);
        assert!(app.price().body.refresh_succeeded);
    }
    assert_eq!(app.requests, [2, 4, 3, 3]);
}

#[test]
fn partial_cold_starts_serve_the_only_success() {
    let mut app = App::new();
    for source in &ALL[..3] {
        app.set(*source, fixture("{}"));
    }
    app.presence(true);
    let reply = app.price();
    assert_eq!(reply.status, 200);
    assert!(reply.body.refresh_succeeded);
    assert_eq!(rows(&reply), [("Gemini".to_string(), 100_300.0)]);
    assert_eq!(average(&reply), Some(100_300.0));
    assert_eq!(spread(&reply), Some(0.0));
    assert_eq!(app.head.as_ref().unwrap().refreshed_source.as_deref(), Some("Gemini"));
    assert_eq!(reply.body.warnings.len(), 3);
    assert_eq!(reply.body.status, PriceStatus::Degraded);
    let cached = app.price();
    assert_eq!(cached.body.warnings, reply.body.warnings);
    assert_eq!(rows(&cached), rows(&reply));
    assert!(!cached.body.refresh_succeeded);
    assert_eq!(app.requests, [1; 4]);
}

#[test]
fn total_failures_keep_quotes_and_save_health() {
    for seeded in [false, true] {
        let mut app = App::new();
        app.presence(true);
        if seeded {
            app.set(UpstreamSource::CoinGecko, fixture("{}"));
            assert_eq!(app.price().status, 200);
            app.presence(false);
            app.advance(10);
            app.presence(true);
        }
        for source in ALL {
            app.set(source, fixture("{}"));
        }
        let head = app.head.as_ref().map(copy_head);
        let stored: Vec<SourceRow> = app.rows.iter().map(copy_row).collect();
        let reply = app.price();
        assert_eq!(reply.status, if seeded { 200 } else { 503 });
        assert!(!reply.body.refresh_succeeded);
        assert_eq!(app.head, head);
        assert_eq!(app.rows, stored);
        for source in ALL {
            assert!(reply.body.warnings.iter().any(|text| text.contains(source.name())));
            assert!(reply.body.provider_health.iter().any(|record| record.source
                == source.name()
                && matches!(record.last_attempt, LastAttempt::Failure { .. })));
        }
        if seeded {
            assert!(reply.body.warnings[0]
                .starts_with("Refresh failed; serving latest SQLite snapshot: CoinGecko "));
        } else {
            assert_eq!(
                reply.body.warnings[0],
                "No stored BTC price snapshot is available yet."
            );
            assert_eq!(
                reply.body.warnings[1],
                "CoinGecko response invalid: missing numeric bitcoin.usd"
            );
        }
        let counts = app.requests;
        assert!(!app.price().body.refresh_succeeded);
        assert_eq!(app.requests, counts);
    }
}

#[test]
fn write_failures_keep_quotes_and_report_both_kinds_of_error() {
    let mut app = App::new();
    app.presence(true);
    let original = app.price();
    assert_eq!(original.body.status, PriceStatus::Live);
    app.writes_fail = true;
    app.set(UpstreamSource::CoinGecko, fixture("{}"));
    app.presence(false);
    app.advance(10);
    app.presence(true);
    let reply = app.price();
    assert_eq!(reply.status, 200);
    assert!(!reply.body.refresh_succeeded);
    assert_eq!(rows(&reply), rows(&original));
    assert_eq!(reply.body.fetched_at_unix, TEST_NOW);
    assert_eq!(reply.body.warnings.len(), 2);
    assert!(reply.body.warnings[0].contains("CoinGecko response invalid"));
    assert!(reply.body.warnings[1].contains("Failed to store refreshed price data"));
    assert!(!format!("{reply:?}").contains("/private/fixture.db"));
    assert_eq!(reply.body.status, PriceStatus::Degraded);
    assert!(reply.body.stale);
    assert!(skipped(&app.price()).contains("last attempt"));
    assert_eq!(app.requests, [2; 4]);
    app.writes_fail = false;
    app.set(UpstreamSource::CoinGecko, fixture(r#"{"bitcoin":{"usd":120000}}"#));
    app.advance(10);
    let recovered = app.price();
    assert!(recovered.body.refresh_succeeded);
    assert_eq!(rows(&recovered)[0].1, 120_000.0);
    assert_eq!(rows(&recovered)[1].1, 100_100.0);
    assert_eq!(app.requests, [3, 2, 2, 2]);
}

#[test]
fn timeouts_keep_the_other_quotes() {
    let mut app = App::new();
    app.set(UpstreamSource::CoinGecko, Fixture { times_out: true, ..fixture("") });
    app.presence(true);
    let reply = app.price();
    assert_eq!(reply.status, 200);
    assert!(reply.body.refresh_succeeded);
    assert_eq!(
        rows(&reply),
        [
            ("Coinbase".to_string(), 100_100.0),
            ("Kraken".to_string(), 100_200.0),
            ("Gemini".to_string(), 100_300.0),
        ]
    );
    assert_eq!(average(&reply), Some(100_200.0));
    assert_eq!(reply.body.warnings, ["CoinGecko request timed out"]);
}

#[test]
fn partial_batches_merge_with_retained_quotes() {
    let mut app = App::new();
    app.presence(true);
    app.price();
    app.set(UpstreamSource::CoinGecko, fixture(r#"{"bitcoin":{"usd":110000.0}}"#));
    app.set(
        UpstreamSource::Kraken,
        fixture(r#"{"error":[],"result":{"XXBTZUSD":{"c":["110200"]}}}"#),
    );
    app.set(UpstreamSource::Coinbase, fixture("{}"));
    app.set(UpstreamSource::Gemini, fixture("{}"));
    app.presence(false);
    app.advance(10);
    app.presence(true);
    let reply = app.price();
    assert_eq!(reply.status, 200);
    assert!(reply.body.refresh_succeeded);
    assert_eq!(
        rows(&reply),
        [
            ("CoinGecko".to_string(), 110_000.0),
            ("Coinbase".to_string(), 100_100.0),
            ("Kraken".to_string(), 110_200.0),
            ("Gemini".to_string(), 100_300.0),
        ]
    );
    assert_eq!(average(&reply), Some(105_150.0));
    assert_eq!(spread(&reply), Some(10_100.0));
    assert_eq!(app.head.as_ref().unwrap().refreshed_source.as_deref(), Some("partial"));
    assert_eq!(reply.body.fetched_at_unix, TEST_NOW + 10);
    assert_eq!(reply.body.warnings.len(), 2);
    let observed: Vec<Option<i64>> =
        reply.body.sources.iter().map(|row| row.quote.last_success_at_unix).collect();
    assert_eq!(
        observed,
        [Some(TEST_NOW + 10), Some(TEST_NOW), Some(TEST_NOW + 10), Some(TEST_NOW)]
    );
}

#[test]
fn readers_are_served_while_another_request_refreshes() {
    let mut app = App::new();
    app.presence(true);
    app.busy = true;
    let cold = app.price();
    assert_eq!(cold.status, 503);
    assert!(cold.body.sources.is_empty());
    assert!(skipped(&cold).contains("in progress"));
    app.busy = false;
    app.price();
    app.busy = true;
    app.advance(10);
    let reply = app.price();
    assert_eq!(reply.status, 200);
    assert_eq!(average(&reply), Some(100_150.0));
    assert!(skipped(&reply).contains("in progress"));
    assert_eq!(app.requests, [1; 4]);
}

#[test]
fn activation_during_batch_survives_completion_and_freshness_gate() {
    let mut app = App::new();
    app.presence(true);
    app.activate_while_asking = true;
    assert_eq!(app.price().status, 200);
    app.activate_while_asking = false;
    assert!(!app.price().body.refresh_succeeded);
    assert_eq!(app.requests, [1; 4]);
    app.advance(10);
    assert!(app.price().body.refresh_succeeded);
    assert_eq!(app.requests, [2; 4]);
    app.presence(true);
    app.advance(10);
    assert!(app.price().body.refresh_succeeded);
    assert_eq!(app.requests, [3, 2, 2, 2]);
}

#[test]
fn failed_attempt_observes_cadence_and_advances_rotation() {
    let mut app = App::new();
    app.presence(true);
    assert_eq!(app.price().status, 200);
    app.set(UpstreamSource::CoinGecko, fixture("{}"));
    app.advance(10);
    app.presence(true);
    assert!(!app.price().body.refresh_succeeded);
    assert_eq!(app.requests, [2, 1, 1, 1]);
    app.advance(9);
    assert!(skipped(&app.price()).contains("last attempt"));
    assert_eq!(app.requests, [2, 1, 1, 1]);
    app.advance(1);
    assert!(app.price().body.refresh_succeeded);
    assert_eq!(app.requests, [2, 2, 1, 1]);
}

#[test]
fn nobody_watching_asks_nobody() {
    let mut app = App::new();
    let reply = app.price();
    assert_eq!(reply.status, 503);
    assert!(reply.body.sources.is_empty());
    assert_eq!(reply.body.active_viewers, 0);
    assert_eq!(reply.body.status, PriceStatus::Unavailable);
    assert_eq!(reply.body.fetched_at_unix, 0);
    assert_eq!(app.requests, [0; 4]);
    app.presence(true);
    assert_eq!(app.price().status, 200);
    app.presence(false);
    app.advance(90);
    let reply = app.price();
    assert_eq!(reply.status, 200);
    assert_eq!(reply.body.active_viewers, 0);
    assert!(reply.body.stale);
    assert_eq!(reply.body.status, PriceStatus::Stale);
    assert_eq!(average(&reply), None);
    assert_eq!(app.requests, [1; 4]);
}

#[test]
fn fresh_snapshot_after_restart_defers_pending_full_refresh_until_ten_seconds() {
    let mut app = App::new();
    app.presence(true);
    let original = app.price();
    app.restart();
    let dormant = app.price();
    assert_eq!(dormant.body.active_viewers, 0);
    assert_eq!(dormant.body.sources, original.body.sources);
    app.presence(true);
    for elapsed in [0, 9] {
        app.advance(elapsed);
        let cached = app.price();
        assert!(!cached.body.refresh_succeeded);
        assert_eq!(cached.body.fetched_at_unix, TEST_NOW);
        assert_eq!(rows(&cached), rows(&original));
        assert_eq!(app.requests, [1; 4]);
    }
    app.advance(1);
    let refreshed = app.price();
    assert!(refreshed.body.refresh_succeeded);
    assert_eq!(refreshed.body.fetched_at_unix, TEST_NOW + 10);
    assert_eq!(app.requests, [2; 4]);
}

#[test]
fn restart_resets_retry_state_but_preserves_partial_snapshot_success_gate() {
    let mut app = App::new();
    app.set(UpstreamSource::CoinGecko, limited("300"));
    app.presence(true);
    let partial = app.price();
    assert_eq!(partial.body.sources.len(), 3);
    app.restart();
    app.presence(true);
    let cached = app.price();
    assert_eq!(cached.body.sources, partial.body.sources);
    assert_eq!(cached.body.warnings, partial.body.warnings);
    assert!(!cached.body.refresh_succeeded);
    assert_eq!(app.requests, [1; 4]);
    app.set(UpstreamSource::CoinGecko, fixture(r#"{"bitcoin":{"usd":100000}}"#));
    app.advance(10);
    let recovered = app.price();
    assert!(recovered.body.refresh_succeeded);
    assert_eq!(recovered.body.sources.len(), 4);
    assert!(recovered.body.warnings.is_empty());
    assert_eq!(app.requests, [2; 4]);
}

#[test]
fn failed_attempt_frequency_does_not_increase_with_viewer_count_or_request_bursts() {
    for viewer_count in [1, 16] {
        let mut app = App::new();
        for source in ALL {
            app.set(source, fixture("{}"));
        }
        for tick in 0..=8 {
            if tick > 0 {
                app.advance(5);
            }
            for viewer in 0..viewer_count {
                app.presence_for(&format!("viewer-{viewer}"), true);
            }
            for _ in 0..4 {
                let reply = app.price();
                assert_eq!(reply.status, 503);
                assert_eq!(reply.body.active_viewers, viewer_count);
                assert!(!reply.body.refresh_succeeded);
            }
            let mut expected = [1; 4];
            for count in expected.iter_mut().take(tick / 2) {
                *count += 1;
            }
            assert_eq!(app.requests, expected);
        }
    }
}

#[test]
fn local_providers_and_manual_time_drive_refresh_and_cache_age() {
    let mut app = App::new();
    app.presence(true);
    let reply = app.price();
    assert_eq!(reply.status, 200);
    assert!(reply.body.refresh_succeeded);
    assert_eq!(reply.body.symbol, "BTC");
    assert_eq!(reply.body.currency, "USD");
    assert_eq!(reply.body.fetched_at_unix, TEST_NOW);
    assert_eq!(reply.body.fetched_age_seconds, Some(0));
    assert_eq!(reply.body.source_max_age_seconds, 90);
    assert_eq!(reply.body.evaluated_at_unix, TEST_NOW);
    assert_eq!(average(&reply), Some(100_150.0));
    assert_eq!(spread(&reply), Some(300.0));
    assert_eq!(
        rows(&reply),
        [
            ("CoinGecko".to_string(), 100_000.0),
            ("Coinbase".to_string(), 100_100.0),
            ("Kraken".to_string(), 100_200.0),
            ("Gemini".to_string(), 100_300.0),
        ]
    );
    assert_eq!(app.requests, [1; 4]);
    app.advance(9);
    let cached = app.price();
    assert_eq!(cached.status, 200);
    assert!(!cached.body.refresh_succeeded);
    assert_eq!(cached.body.fetched_at_unix, TEST_NOW);
    assert_eq!(cached.body.fetched_age_seconds, Some(9));
    assert_eq!(app.requests, [1; 4]);
    app.advance(1);
    let refreshed = app.price();
    assert_eq!(refreshed.status, 200);
    assert!(refreshed.body.refresh_succeeded);
    assert_eq!(refreshed.body.fetched_at_unix, TEST_NOW + 10);
    assert_eq!(refreshed.body.fetched_age_seconds, Some(0));
    assert_eq!(app.requests, [2, 1, 1, 1]);
}

#[test]
fn manual_time_expires_presence_without_sleeping() {
    let mut app = App::new();
    app.presence(true);
    assert_eq!(app.price().status, 200);
    app.advance(15);
    assert_eq!(active_viewer_count(&mut app.viewers, app.now), 1);
    app.advance(1);
    let reply = app.price();
    assert_eq!(reply.status, 200);
    assert_eq!(reply.body.active_viewers, 0);
    assert_eq!(reply.body.fetched_age_seconds, Some(16));
    assert!(!reply.body.refresh_succeeded);
    assert_eq!(app.requests, [1; 4]);
}

#[test]
fn presence_ignores_wall_clock_jumps_and_expires_just_after_ttl() {
    let mut app = App::new();
    app.presence(true);
    app.price();
    app.unix = TEST_NOW + 86_400;
    assert_eq!(active_viewer_count(&mut app.viewers, app.now), 1);
    app.unix = TEST_NOW - 86_400;
    assert_eq!(active_viewer_count(&mut app.viewers, app.now), 1);
    app.advance_monotonic(15 * SECOND);
    assert_eq!(active_viewer_count(&mut app.viewers, app.now), 1);
    app.advance_monotonic(1);
    let expired = app.price();
    assert_eq!(expired.body.active_viewers, 0);
    assert!(!expired.body.refresh_succeeded);
    assert_eq!(app.requests, [1; 4]);
    app.presence(true);
    assert_eq!(app.generation, 2);
    assert!(app.price().body.refresh_succeeded);
    assert_eq!(app.requests, [2; 4]);
    app.presence(false);
    assert_eq!(active_viewer_count(&mut app.viewers, app.now), 0);
    app.presence(true);
    app.presence(true);
    assert_eq!(app.generation, 3);
    assert!(!app.price().body.refresh_succeeded);
    app.advance(10);
    assert!(app.price().body.refresh_succeeded);
    assert_eq!(app.requests, [3; 4]);
}

#[test]
fn viewers_who_leave_before_the_inspection_stop_the_refresh() {
    let mut app = App::new();
    app.presence(true);
    let Opening::TryLock(lock) = open_price_request(1) else { panic!("a viewer is active") };
    let LockOutcome::Inspect(inspection) = lock.resolve(true) else { panic!("not busy") };
    app.advance_monotonic(16 * SECOND);
    let active = active_viewer_count(&mut app.viewers, app.now);
    let before = app.coordinator;
    let inspected = app.load();
    let Inspection::Reply(report) =
        inspection.resolve(&mut app.coordinator, inspected, active, app.unix, app.now, 1)
    else {
        panic!("nobody is watching")
    };
    assert!(report.skipped_reason.unwrap().contains("no active viewers"));
    assert_eq!(app.coordinator, before);
}

#[test]
fn dispatched_work_finishes_after_viewers_expire() {
    let mut app = App::new();
    app.set(
        UpstreamSource::CoinGecko,
        Fixture { seconds: 16, ..fixture(r#"{"bitcoin":{"usd":100000.0}}"#) },
    );
    app.presence(true);
    let completed = app.price();
    assert_eq!(completed.body.active_viewers, 0);
    assert!(completed.body.refresh_succeeded);
    assert!(!app.price().body.refresh_succeeded);
    assert_eq!(app.requests, [1; 4]);
}

#[test]
fn future_snapshot_has_unknown_age_and_does_not_bypass_attempt_gate() {
    let mut app = App::new();
    app.presence(true);
    app.price();
    app.unix = TEST_NOW - 3600;
    let cached = app.price();
    assert_eq!(cached.body.fetched_age_seconds, None);
    assert!(cached.body.stale);
    assert!(!cached.body.refresh_succeeded);
    assert!(skipped(&cached).contains("last attempt"));
    app.advance_monotonic(10 * SECOND);
    let recovered = app.price();
    assert!(recovered.body.refresh_succeeded);
    assert_eq!(recovered.body.fetched_at_unix, TEST_NOW - 3600);
    assert_eq!(app.requests, [2, 1, 1, 1]);
}

#[test]
fn held_provider_response_uses_time_at_completion() {
    let mut app = App::new();
    app.set(
        UpstreamSource::CoinGecko,
        Fixture { seconds: 7, ..fixture(r#"{"bitcoin":{"usd":100000.0}}"#) },
    );
    app.presence(true);
    let reply = app.price();
    assert_eq!(reply.status, 200);
    assert_eq!(reply.body.fetched_at_unix, TEST_NOW + 7);
    assert_eq!(reply.body.fetched_age_seconds, Some(0));
    assert!(reply.body.refresh_succeeded);
    assert_eq!(app.requests, [1; 4]);
    assert_eq!(app.head.as_ref().unwrap().fetched_at_unix, TEST_NOW + 7);
}

#[test]
fn unreadable_storage_is_reported_without_details() {
    let mut app = App::new();
    app.presence(true);
    app.price();
    app.advance(10);
    app.reads_fail = true;
    let reply = app.price();
    assert_eq!(reply.status, 500);
    assert_eq!(reply.body.warnings, ["Failed to load stored price data."]);
    assert!(reply.body.provider_health.is_empty());
    assert!(reply.body.sources.is_empty());
    assert_eq!(reply.body.coverage.fresh_source_count, 0);
    assert_eq!(reply.body.status, PriceStatus::Unavailable);
    assert!(!format!("{reply:?}").contains("/private/fixture.db"));
    assert_eq!(app.requests, [1; 4]);
}

#[test]
fn inspection_failures_degrade_a_live_reply() {
    let mut app = App::new();
    app.presence(true);
    assert_eq!(app.price().body.status, PriceStatus::Live);
    let Opening::TryLock(lock) = open_price_request(1) else { panic!("a viewer is active") };
    let LockOutcome::Inspect(inspection) = lock.resolve(true) else { panic!("not busy") };
    let Inspection::Reply(report) = inspection.resolve(
        &mut app.coordinator,
        Err("private".to_string()),
        1,
        app.unix,
        app.now,
        1,
    ) else {
        panic!("nothing was inspected")
    };
    assert_eq!(report.errors, ["Failed to inspect stored price data before refresh"]);
    let reply = price_reply(report, app.load(), app.unix, 1);
    assert_eq!(reply.status, 200);
    assert_eq!(reply.body.status, PriceStatus::Degraded);
    assert!(reply.body.stale);
    assert_eq!(
        reply.body.warnings,
        ["Refresh failed; serving latest SQLite snapshot: Failed to inspect stored price data before refresh"]
    );
}

#[test]
fn snapshots_without_a_usable_quote_are_unavailable() {
    let mut app = App::new();
    app.presence(true);
    app.price();
    for row in &mut app.rows {
        row.price_usd = Price { bits: (-1.0f64).to_bits() };
    }
    let reply = app.price();
    assert_eq!(reply.status, 503);
    assert_eq!(reply.body.status, PriceStatus::Unavailable);
    assert!(reply.body.sources.is_empty());
    assert_eq!(reply.body.fetched_at_unix, TEST_NOW);
}

#[test]
fn refresh_failures_keep_their_kind() {
    let mut app = App::new();
    app.set(UpstreamSource::Kraken, limited("20"));
    let attempt = app.fetch(UpstreamSource::Kraken);
    assert!(matches!(
        attempt.result.unwrap_err().kind,
        ProviderErrorKind::Http { status: 429, .. }
    ));
}
