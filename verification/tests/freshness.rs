use bitcoin_price_tracker::freshness::{evaluate_quotes, observation_age, QuoteEvaluation};
use bitcoin_price_tracker::models::source_contract::{
    LastAttempt, PriceStatus, ProviderHealth, QuoteKind, SourceFreshness, StoredQuote,
};
use bitcoin_price_tracker::price::Price;
use bitcoin_price_tracker::sources::UpstreamSource;

const ALL: [UpstreamSource; 4] = [
    UpstreamSource::CoinGecko,
    UpstreamSource::Coinbase,
    UpstreamSource::Kraken,
    UpstreamSource::Gemini,
];

fn price(amount: f64) -> Price {
    Price { bits: amount.to_bits() }
}

fn quote(source: &str, amount: f64, time: i64) -> StoredQuote {
    StoredQuote {
        source: source.to_string(),
        price_usd: price(amount),
        last_success_at_unix: Some(time),
        quote_kind: QuoteKind::Unknown,
    }
}

fn average(result: &QuoteEvaluation) -> Option<f64> {
    let prices: Vec<f64> =
        result.contributing_prices.iter().map(|price| f64::from_bits(price.bits)).collect();
    let mut average = *prices.first()?;
    for (index, price) in prices.iter().enumerate().skip(1) {
        average += (price - average) / (index + 1) as f64;
    }
    Some(average)
}

fn spread(result: &QuoteEvaluation) -> Option<f64> {
    let (low, high) = result.price_range?;
    Some(f64::from_bits(high.bits) - f64::from_bits(low.bits))
}

fn all_successful() -> Vec<ProviderHealth> {
    ALL.iter()
        .map(|source| ProviderHealth {
            source: source.name().to_string(),
            last_attempt: LastAttempt::Success { attempted_at_unix: 1 },
        })
        .collect()
}

#[test]
fn extreme_positive_prices_keep_finite_nonzero_aggregates() {
    for amount in [f64::MAX, f64::from_bits(1)] {
        let result = evaluate_quotes(
            ALL.iter().map(|source| quote(source.name(), amount, 100)).collect(),
            &[],
            100,
        );
        assert_eq!(average(&result), Some(amount));
        assert_eq!(spread(&result), Some(0.0));
        assert_eq!(result.coverage.fresh_source_count, 4);
        assert_eq!(result.status, PriceStatus::Degraded);
    }
}

#[test]
fn duplicates_and_unknown_providers_cannot_inflate_coverage() {
    let result = evaluate_quotes(
        vec![
            quote("Coinbase", 200.0, 99),
            quote("Legacy", 1000.0, 100),
            quote("Coinbase", 100.0, 98),
            quote("Kraken", f64::NAN, 100),
            quote("Gemini", -1.0, 100),
            quote("CoinGecko", f64::INFINITY, 100),
        ],
        &[],
        100,
    );
    assert_eq!(result.sources.len(), 3);
    assert_eq!(result.sources[1].freshness, SourceFreshness::Unknown);
    assert_eq!(result.coverage.fresh_source_count, 1);
    assert_eq!(result.coverage.contributing_sources, ["Coinbase"]);
    assert_eq!(average(&result), Some(200.0));
    assert_eq!(spread(&result), Some(0.0));
    assert_eq!(result.status, PriceStatus::Degraded);
}

#[test]
fn freshness_changes_at_ninety_seconds() {
    let now = 1_000;
    for (time, freshness, age) in [
        (1_000, SourceFreshness::Fresh, Some(0)),
        (911, SourceFreshness::Fresh, Some(89)),
        (910, SourceFreshness::Stale, Some(90)),
        (1_001, SourceFreshness::Future, None),
        (i64::MIN, SourceFreshness::Unknown, None),
    ] {
        let result = evaluate_quotes(vec![quote("Kraken", 5.0, time)], &[], now);
        assert_eq!(result.sources[0].freshness, freshness);
        assert_eq!(result.sources[0].age_seconds, age);
    }
    let mut undated = quote("Kraken", 5.0, 0);
    undated.last_success_at_unix = None;
    let result = evaluate_quotes(vec![undated], &[], now);
    assert_eq!(result.sources[0].freshness, SourceFreshness::Unknown);
    assert_eq!(result.sources[0].age_seconds, None);
    let result = evaluate_quotes(vec![quote("Legacy", 5.0, 990)], &[], now);
    assert_eq!(result.sources[0].freshness, SourceFreshness::Unknown);
    assert_eq!(result.sources[0].age_seconds, Some(10));
}

#[test]
fn live_needs_every_provider_fresh_and_healthy() {
    let quotes = || -> Vec<StoredQuote> {
        ALL.iter()
            .enumerate()
            .map(|(i, source)| quote(source.name(), 100.0 + i as f64, 100))
            .collect()
    };
    let result = evaluate_quotes(quotes(), &all_successful(), 150);
    assert_eq!(result.status, PriceStatus::Live);
    assert_eq!(result.coverage.configured_source_count, 4);
    assert_eq!(
        result.coverage.contributing_sources,
        ["CoinGecko", "Coinbase", "Kraken", "Gemini"]
    );
    assert_eq!(average(&result), Some(101.5));
    assert_eq!(spread(&result), Some(3.0));
    let mut health = all_successful();
    health[2].last_attempt = LastAttempt::Unknown;
    assert_eq!(evaluate_quotes(quotes(), &health, 150).status, PriceStatus::Degraded);
    assert_eq!(evaluate_quotes(quotes(), &health[..3], 150).status, PriceStatus::Degraded);
    let mut partial = quotes();
    partial.remove(1);
    assert_eq!(evaluate_quotes(partial, &all_successful(), 150).status, PriceStatus::Degraded);
}

#[test]
fn without_contributors_a_reply_is_stale_or_unavailable() {
    let result = evaluate_quotes(vec![quote("Kraken", 5.0, 0)], &all_successful(), 1_000);
    assert_eq!(result.status, PriceStatus::Stale);
    assert_eq!(average(&result), None);
    assert_eq!(result.price_range, None);
    assert_eq!(result.coverage.fresh_source_count, 0);
    let result = evaluate_quotes(vec![quote("Kraken", 0.0, 1_000)], &all_successful(), 1_000);
    assert_eq!(result.status, PriceStatus::Unavailable);
    assert!(result.sources.is_empty());
}

#[test]
fn the_newest_of_equal_times_is_the_last_one() {
    let result = evaluate_quotes(
        vec![
            quote("Gemini", 1.0, 95),
            quote("Gemini", 2.0, 99),
            quote("Gemini", 3.0, 99),
            quote("Gemini", 4.0, 101),
            quote("CoinGecko", 9.0, 90),
        ],
        &[],
        100,
    );
    assert_eq!(result.contributing_prices, [price(9.0), price(3.0)]);
    assert_eq!(result.price_range, Some((price(3.0), price(9.0))));
}

#[test]
fn ages_are_checked() {
    assert_eq!(observation_age(Some(3), 10), Some(7));
    assert_eq!(observation_age(Some(11), 10), None);
    assert_eq!(observation_age(Some(i64::MIN), 10), None);
    assert_eq!(observation_age(None, 10), None);
}

#[test]
fn patterns_order_prices() {
    for (a, b) in [(1.0, 2.0), (0.1, 0.2), (f64::from_bits(1), 1.0), (1e308, f64::MAX)] {
        assert!(price(a).bits < price(b).bits);
        assert!(price(a).is_usable() && price(b).is_usable());
    }
    for amount in [0.0, -0.0, -1.0, f64::NAN, f64::INFINITY, f64::NEG_INFINITY] {
        assert!(!price(amount).is_usable());
    }
}
