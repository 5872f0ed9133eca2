use bitcoin_price_tracker::errors::{ProviderError, ProviderErrorKind, RetryAfter};
use bitcoin_price_tracker::models::source_contract::{
    ErrorCategory, LastAttempt, ProviderHealth, QuoteKind, SourceError, StoredQuote,
};
use bitcoin_price_tracker::models::SnapshotRecord;
use bitcoin_price_tracker::price::Price;
use bitcoin_price_tracker::refresh::AttemptResult;
use bitcoin_price_tracker::snapshots::{
    attempt_results, merge_snapshot_sources, refresh_records, ProviderAttempt,
};
use bitcoin_price_tracker::sources::UpstreamSource;
use bitcoin_price_tracker::storage::{
    initial_health, lacks_column, latest_snapshot_id, read_provider_health, read_snapshot,
    schema_action, write_provider_health, write_snapshot, HealthRow, SchemaAction, SnapshotKey,
    SnapshotRow, SourceRow,
};

fn price(amount: f64) -> Price {
    Price { bits: amount.to_bits() }
}

fn quote(source: &str, amount: f64, time: Option<i64>, quote_kind: QuoteKind) -> StoredQuote {
    StoredQuote {
        source: source.to_string(),
        price_usd: price(amount),
        last_success_at_unix: time,
        quote_kind,
    }
}

fn snapshot(sources: Vec<StoredQuote>) -> SnapshotRecord {
    SnapshotRecord {
        fetched_at_unix: 10,
        sources,
        average_price: Some(price(100.0)),
        spread: Some(price(0.0)),
        warnings: vec!["first".to_string(), "with \"quotes\" and \u{1F600}\n".to_string()],
        refreshed_source: Some("CoinGecko".to_string()),
    }
}

fn names(quotes: &[StoredQuote]) -> Vec<&str> {
    quotes.iter().map(|quote| quote.source.as_str()).collect()
}

fn success(source: UpstreamSource, amount: f64) -> ProviderAttempt {
    ProviderAttempt {
        source,
        attempted_at_unix: 100,
        completed_at_unix: 102,
        result: Ok(price(amount)),
    }
}

fn failure(source: UpstreamSource, kind: ProviderErrorKind) -> ProviderAttempt {
    ProviderAttempt {
        source,
        attempted_at_unix: 100,
        completed_at_unix: 103,
        result: Err(ProviderError { provider: source, kind }),
    }
}

#[test]
fn merges_follow_configured_order_then_names() {
    let latest = snapshot(vec![
        quote("Zeta", 1.0, None, QuoteKind::Unknown),
        quote("Gemini", 2.0, Some(5), QuoteKind::Bid),
        quote("Alpha", 3.0, None, QuoteKind::Unknown),
        quote("CoinGecko", 4.0, None, QuoteKind::Aggregate),
        quote("Alphabet", 5.0, None, QuoteKind::Unknown),
    ]);
    let merged = merge_snapshot_sources(
        Some(&latest),
        &vec![quote("Coinbase", 9.0, Some(7), QuoteKind::Spot)],
    );
    assert_eq!(
        names(&merged),
        ["CoinGecko", "Coinbase", "Gemini", "Alpha", "Alphabet", "Zeta"]
    );
}

#[test]
fn merges_replace_refreshed_rows_and_keep_the_others() {
    let latest = snapshot(vec![
        quote("Coinbase", 1.0, Some(5), QuoteKind::Spot),
        quote("Kraken", 2.0, Some(6), QuoteKind::LastTrade),
        quote("Gemini", f64::NAN, Some(7), QuoteKind::Bid),
        quote("CoinGecko", -3.0, Some(8), QuoteKind::Aggregate),
    ]);
    let merged = merge_snapshot_sources(
        Some(&latest),
        &vec![quote("Kraken", 20.0, Some(60), QuoteKind::LastTrade)],
    );
    assert_eq!(
        merged,
        [
            quote("Coinbase", 1.0, Some(5), QuoteKind::Spot),
            quote("Kraken", 20.0, Some(60), QuoteKind::LastTrade),
        ]
    );
    assert!(merge_snapshot_sources(None, &Vec::new()).is_empty());
}

#[test]
fn later_duplicates_win() {
    let latest = snapshot(vec![
        quote("Legacy", 1.0, Some(5), QuoteKind::Unknown),
        quote("Legacy", 2.0, Some(4), QuoteKind::Unknown),
        quote("Legacy", 0.0, Some(9), QuoteKind::Unknown),
    ]);
    let merged = merge_snapshot_sources(Some(&latest), &Vec::new());
    assert_eq!(merged, [quote("Legacy", 2.0, Some(4), QuoteKind::Unknown)]);
}

#[test]
fn partial_refreshes_are_recorded() {
    let latest = snapshot(vec![quote("Coinbase", 1.0, Some(5), QuoteKind::Spot)]);
    let attempts = vec![
        success(UpstreamSource::CoinGecko, 50.0),
        failure(UpstreamSource::Coinbase, ProviderErrorKind::Timeout("late".to_string())),
        success(UpstreamSource::Kraken, 60.0),
    ];
    let saved = refresh_records(Some(&latest), &attempts, 104);
    let merged = saved.snapshot.unwrap();
    assert_eq!(merged.fetched_at_unix, 104);
    assert_eq!(
        merged.sources,
        [
            quote("CoinGecko", 50.0, Some(102), QuoteKind::Aggregate),
            quote("Coinbase", 1.0, Some(5), QuoteKind::Spot),
            quote("Kraken", 60.0, Some(102), QuoteKind::LastTrade),
        ]
    );
    assert_eq!(merged.warnings, ["Coinbase request timed out"]);
    assert_eq!(merged.refreshed_source.as_deref(), Some("partial"));
    assert_eq!(merged.average_price, None);
    assert_eq!(
        saved.health,
        [
            ProviderHealth {
                source: "CoinGecko".to_string(),
                last_attempt: LastAttempt::Success { attempted_at_unix: 100 },
            },
            ProviderHealth {
                source: "Coinbase".to_string(),
                last_attempt: LastAttempt::Failure {
                    attempted_at_unix: 100,
                    error: SourceError {
                        category: ErrorCategory::Timeout,
                        message: "Coinbase request timed out".to_string(),
                        http_status: None,
                    },
                },
            },
            ProviderHealth {
                source: "Kraken".to_string(),
                last_attempt: LastAttempt::Success { attempted_at_unix: 100 },
            },
        ]
    );
    assert_eq!(saved.failures.len(), 1);
}

#[test]
fn snapshots_name_what_was_refreshed() {
    let one = refresh_records(None, &vec![success(UpstreamSource::Gemini, 1.0)], 0);
    assert_eq!(one.snapshot.unwrap().refreshed_source.as_deref(), Some("Gemini"));
    let all = vec![
        success(UpstreamSource::CoinGecko, 1.0),
        success(UpstreamSource::Coinbase, 1.0),
        success(UpstreamSource::Kraken, 1.0),
        success(UpstreamSource::Gemini, 1.0),
    ];
    let saved = refresh_records(None, &all, 0);
    assert_eq!(saved.snapshot.unwrap().refreshed_source.as_deref(), Some("all"));
}

#[test]
fn total_failure_saves_health_only() {
    let attempts = vec![
        failure(UpstreamSource::CoinGecko, ProviderErrorKind::Transport("reset".to_string())),
        failure(
            UpstreamSource::Gemini,
            ProviderErrorKind::Http { status: 500, retry_after: None },
        ),
    ];
    let saved = refresh_records(None, &attempts, 9);
    assert_eq!(saved.snapshot, None);
    assert_eq!(saved.health.len(), 2);
    assert_eq!(saved.failures.len(), 2);
}

#[test]
fn answers_reach_the_schedule() {
    let attempts = vec![
        success(UpstreamSource::Kraken, 60.0),
        failure(
            UpstreamSource::CoinGecko,
            ProviderErrorKind::Http { status: 429, retry_after: Some(RetryAfter::Delay(9)) },
        ),
        failure(UpstreamSource::Gemini, ProviderErrorKind::Timeout("late".to_string())),
    ];
    assert_eq!(
        attempt_results(&attempts),
        [
            Some(AttemptResult::Failed { retry_after: Some(RetryAfter::Delay(9)) }),
            None,
            Some(AttemptResult::Succeeded),
            Some(AttemptResult::Failed { retry_after: None }),
        ]
    );
}

#[test]
fn snapshots_come_back_from_their_rows() {
    let original = snapshot(vec![
        quote("Kraken", 2.0, Some(6), QuoteKind::LastTrade),
        quote("CoinGecko", 4.0, None, QuoteKind::Aggregate),
        quote("Beta", 8.0, Some(1), QuoteKind::Unknown),
        quote("Alpha", 9.0, Some(-1), QuoteKind::Unknown),
        quote("Gemini", 1.0, Some(2), QuoteKind::Bid),
    ]);
    let (head, rows) = write_snapshot(&original).unwrap();
    assert_eq!(head.fetched_at_unix, 10);
    assert_eq!(head.warnings_json, "[\"first\",\"with \\\"quotes\\\" and \u{1F600}\\n\"]");
    assert_eq!(rows[0].quote_kind, "last_trade");
    let read = read_snapshot(head, &rows).unwrap();
    assert_eq!(names(&read.sources), ["CoinGecko", "Kraken", "Gemini", "Alpha", "Beta"]);
    assert_eq!(read.sources[0], original.sources[1]);
    assert_eq!(read.sources[4], original.sources[2]);
    assert_eq!(read.warnings, original.warnings);
    assert_eq!(read.average_price, original.average_price);
    assert_eq!(read.spread, original.spread);
    assert_eq!(read.refreshed_source, original.refreshed_source);
    assert_eq!(read.fetched_at_unix, 10);
}

#[test]
fn merged_snapshots_come_back_unchanged() {
    let latest = snapshot(vec![quote("Zeta", 2.0, None, QuoteKind::Unknown)]);
    let saved = refresh_records(
        Some(&latest),
        &vec![success(UpstreamSource::Gemini, 3.0), success(UpstreamSource::CoinGecko, 4.0)],
        7,
    );
    let merged = saved.snapshot.unwrap();
    let (head, rows) = write_snapshot(&merged).unwrap();
    assert_eq!(read_snapshot(head, &rows).unwrap(), merged);
}

#[test]
fn unusable_prices_are_not_stored() {
    for amount in [0.0, -1.0, f64::NAN, f64::INFINITY, f64::NEG_INFINITY] {
        let error = write_snapshot(&snapshot(vec![
            quote("Kraken", 1.0, None, QuoteKind::LastTrade),
            quote("CoinGecko", amount, None, QuoteKind::Aggregate),
        ]))
        .unwrap_err();
        assert_eq!(error, "refusing to store an invalid source price");
    }
}

fn stored_head(warnings_json: &str) -> SnapshotRow {
    SnapshotRow {
        fetched_at_unix: 1,
        average_price: None,
        spread: None,
        warnings_json: warnings_json.to_string(),
        refreshed_source: None,
    }
}

#[test]
fn unreadable_rows_are_refused() {
    let error = read_snapshot(stored_head("{}"), &Vec::new()).unwrap_err();
    assert!(error.starts_with("failed to decode stored warnings: "), "{error}");
    assert!(error.len() > "failed to decode stored warnings: ".len());
    assert!(read_snapshot(stored_head("[1]"), &Vec::new()).is_err());
    let row = SourceRow {
        source: "Kraken".to_string(),
        price_usd: price(1.0),
        last_success_at_unix: None,
        quote_kind: "ask".to_string(),
    };
    assert_eq!(
        read_snapshot(stored_head("[]"), &vec![row]).unwrap_err(),
        "failed to decode stored source row: Conversion error from type Text at index: 3, unknown \
         variant `ask`, expected one of `aggregate`, `spot`, `last_trade`, `bid`, `unknown`"
    );
    let read = read_snapshot(stored_head("[\"legacy warning\"]"), &Vec::new()).unwrap();
    assert_eq!(read.warnings, ["legacy warning"]);
    assert!(read.sources.is_empty());
}

#[test]
fn the_first_unreadable_row_by_name_is_reported() {
    let row = |source: &str, kind: &str| SourceRow {
        source: source.to_string(),
        price_usd: price(1.0),
        last_success_at_unix: None,
        quote_kind: kind.to_string(),
    };
    let rows = vec![
        row("Zeta", "z"),
        row("Coinbase", "spot"),
        row("Kraken", "k"),
        row("Alpha", "a"),
        row("CoinGecko", "aggregate"),
        row("Gemini", "g"),
    ];
    let error = read_snapshot(stored_head("[]"), &rows).unwrap_err();
    assert!(error.contains("variant `k`,"), "{error}");
    let rows = vec![row("Zeta", "z"), row("Alpha", " at line 1 column 2"), row("Kraken", "bid")];
    let error = read_snapshot(stored_head("[]"), &rows).unwrap_err();
    assert!(error.contains("variant ` at line 1 column 2`,"), "{error}");
    let health = |source: &str, outcome: &str| HealthRow {
        source: source.to_string(),
        attempt_outcome: outcome.to_string(),
        attempted_at_unix: None,
        error_category: None,
        error_message: None,
        http_status: None,
    };
    let rows = vec![
        health("Alpha", "other"),
        health("CoinGecko", "unknown"),
        health("Gemini", "success"),
    ];
    assert_eq!(
        read_provider_health(&rows).unwrap_err(),
        "failed to decode provider health: Invalid column type Null at index: 2, name: \
         attempted_at_unix"
    );
}

fn health(source: &str, last_attempt: LastAttempt) -> ProviderHealth {
    ProviderHealth { source: source.to_string(), last_attempt }
}

#[test]
fn health_comes_back_from_its_rows() {
    let failure = LastAttempt::Failure {
        attempted_at_unix: 21,
        error: SourceError {
            category: ErrorCategory::Http,
            message: "rate limited".to_string(),
            http_status: Some(429),
        },
    };
    let records = vec![
        health("Kraken", LastAttempt::Success { attempted_at_unix: 20 }),
        health("CoinGecko", failure),
        health("Gemini", LastAttempt::Unknown),
    ];
    let rows = write_provider_health(&records);
    assert_eq!(
        rows[1],
        HealthRow {
            source: "CoinGecko".to_string(),
            attempt_outcome: "failure".to_string(),
            attempted_at_unix: Some(21),
            error_category: Some("http".to_string()),
            error_message: Some("rate limited".to_string()),
            http_status: Some(429),
        }
    );
    let read = read_provider_health(&rows).unwrap();
    assert_eq!(read.len(), 3);
    assert_eq!(read[0], records[1]);
    assert_eq!(read[1], records[0]);
    assert_eq!(read[2], records[2]);
}

#[test]
fn inconsistent_health_rows_are_refused() {
    let row = |outcome: &str, time, category: Option<&str>, message: Option<&str>| HealthRow {
        source: "Kraken".to_string(),
        attempt_outcome: outcome.to_string(),
        attempted_at_unix: time,
        error_category: category.map(str::to_string),
        error_message: message.map(str::to_string),
        http_status: None,
    };
    let no_time = "Invalid column type Null at index: 2, name: attempted_at_unix";
    for (bad, fault) in [
        (row("maybe", None, None, None), "Query is not read-only"),
        (row("success", None, None, None), no_time),
        (row("failure", None, None, None), no_time),
        (row("failure", None, Some("timeout"), Some("m")), no_time),
        (
            row("failure", Some(1), None, Some("m")),
            "Invalid column type Null at index: 3, name: error_category",
        ),
        (
            row("failure", Some(1), Some("timeout"), None),
            "Invalid column type Null at index: 4, name: error_message",
        ),
        (
            row("failure", Some(1), Some("other"), None),
            "Conversion error from type Text at index: 3, unknown variant `other`, expected one of \
             `timeout`, `transport`, `http`, `invalid_payload`, `invalid_price`",
        ),
    ] {
        assert_eq!(
            read_provider_health(&vec![row("unknown", None, None, None), bad]).unwrap_err(),
            format!("failed to decode provider health: {fault}")
        );
    }
    assert!(read_provider_health(&vec![row("failure", Some(1), Some("timeout"), Some("m"))]).is_ok());
}

#[test]
fn new_databases_know_nothing_of_any_provider() {
    let start = initial_health();
    let sources: Vec<&str> = start.iter().map(|record| record.source.as_str()).collect();
    assert_eq!(sources, ["CoinGecko", "Coinbase", "Kraken", "Gemini"]);
    assert!(start.iter().all(|record| record.last_attempt == LastAttempt::Unknown));
}

#[test]
fn schema_versions_decide_startup() {
    assert_eq!(schema_action(0), Ok(SchemaAction::Migrate));
    assert_eq!(schema_action(1), Ok(SchemaAction::Keep));
    for version in [-1, 2] {
        assert_eq!(
            schema_action(version),
            Err(format!(
                "unsupported SQLite schema version {version}; supported version is 1"
            ))
        );
    }
    assert!(schema_action(i64::MIN).unwrap_err().contains("-9223372036854775808"));
}

#[test]
fn columns_are_looked_up_by_name() {
    let columns = vec!["id".to_string(), "spread".to_string()];
    assert!(!lacks_column(&columns, "spread"));
    assert!(lacks_column(&columns, "refreshed_source"));
    assert!(lacks_column(&Vec::new(), "id"));
}

#[test]
fn the_latest_snapshot_is_kept() {
    let key = |id, fetched_at_unix| SnapshotKey { id, fetched_at_unix };
    assert_eq!(latest_snapshot_id(&Vec::new()), None);
    assert_eq!(latest_snapshot_id(&vec![key(1, 10)]), Some(1));
    assert_eq!(latest_snapshot_id(&vec![key(1, 10), key(2, 20), key(3, 15)]), Some(2));
    assert_eq!(latest_snapshot_id(&vec![key(4, 20), key(2, 20), key(3, 5)]), Some(4));
}

#[test]
fn migrated_names_determine_known_kinds() {
    for (name, kind) in [
        ("CoinGecko", QuoteKind::Aggregate),
        ("Coinbase", QuoteKind::Spot),
        ("Kraken", QuoteKind::LastTrade),
        ("Gemini", QuoteKind::Bid),
        ("Legacy", QuoteKind::Unknown),
        ("", QuoteKind::Unknown),
    ] {
        assert_eq!(QuoteKind::of_name(name), kind);
    }
}
