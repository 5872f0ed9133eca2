use bitcoin_price_tracker::errors::{
    ProviderError, ProviderErrorKind, RefreshError, RetryAfter,
};
use bitcoin_price_tracker::models::source_contract::ErrorCategory;
use bitcoin_price_tracker::pricing::check_status;
use bitcoin_price_tracker::sources::UpstreamSource;

#[test]
fn retry_after_preserves_delay_and_absolute_date() {
    assert_eq!(RetryAfter::parse(b"20"), Some(RetryAfter::Delay(20)));
    assert_eq!(RetryAfter::parse(b"0"), Some(RetryAfter::Delay(0)));
    assert_eq!(
        RetryAfter::parse(b"Wed, 21 Oct 2015 07:28:00 GMT"),
        Some(RetryAfter::At(1_445_412_480))
    );
}

#[test]
fn retry_after_ignores_invalid_and_overflowing_values() {
    for value in ["", "-1", "+1", "1.5", "tomorrow", "18446744073709551616"] {
        assert_eq!(RetryAfter::parse(value.as_bytes()), None, "{value}");
    }
    assert_eq!(RetryAfter::parse(&[0xff]), None);
}

#[test]
fn retry_after_is_trimmed_and_bounded() {
    assert_eq!(RetryAfter::parse(b" \t 7 \t"), Some(RetryAfter::Delay(7)));
    assert_eq!(RetryAfter::parse(b"007"), Some(RetryAfter::Delay(7)));
    assert_eq!(RetryAfter::parse(b"18446744073709551615"), Some(RetryAfter::Delay(u64::MAX)));
    assert_eq!(RetryAfter::parse(b"7 7"), None);
    assert_eq!(RetryAfter::parse(b"7\n"), None);
    assert_eq!(RetryAfter::parse(b"   "), None);
    assert_eq!(
        RetryAfter::parse(b"  Sun, 06 Nov 1994 08:49:37 GMT "),
        Some(RetryAfter::At(784_111_777))
    );
    assert_eq!(
        RetryAfter::parse(b"Sunday, 06-Nov-94 08:49:37 GMT"),
        Some(RetryAfter::At(784_111_777))
    );
    assert_eq!(RetryAfter::parse(b"Sun, 07 Nov 1994 08:48:37 GMT"), None);
    assert_eq!(
        RetryAfter::parse(b"Fri, 31 Dec 9999 23:59:59 GMT"),
        Some(RetryAfter::At(253_402_300_799))
    );
}

#[test]
fn hints_given_the_date() {
    assert_eq!(RetryAfter::with_date(b"12", Some(99)), Some(RetryAfter::Delay(12)));
    assert_eq!(RetryAfter::with_date(b"a date", Some(99)), Some(RetryAfter::At(99)));
    assert_eq!(RetryAfter::with_date(b"a date", None), None);
    assert_eq!(RetryAfter::with_date(&[127], Some(99)), None);
}

#[test]
fn storage_details_are_diagnostic_only() {
    let error = RefreshError::Storage("database failed at /private/fixture.db".to_string());
    assert!(!error.message().contains("/private/fixture.db"));
    assert!(format!("{error:?}").contains("/private/fixture.db"));
}

fn failed_request(provider: UpstreamSource, timed_out: bool, invalid_json: bool) -> ProviderError {
    ProviderError::from_request(provider, timed_out, invalid_json, "the cause".to_string())
}

fn message(kind: ProviderErrorKind) -> String {
    ProviderError { provider: UpstreamSource::CoinGecko, kind }.message()
}

#[test]
fn failures_are_worded_exactly() {
    let cause = || "at /private".to_string();
    assert_eq!(message(ProviderErrorKind::Timeout(cause())), "CoinGecko request timed out");
    assert_eq!(message(ProviderErrorKind::Transport(cause())), "CoinGecko request failed");
    assert_eq!(
        message(ProviderErrorKind::Http { status: 429, retry_after: None }),
        "CoinGecko HTTP error: 429 Too Many Requests"
    );
    assert_eq!(
        message(ProviderErrorKind::Http {
            status: 503,
            retry_after: Some(RetryAfter::Delay(120))
        }),
        "CoinGecko HTTP error: 503 Service Unavailable; retry after 120s"
    );
    assert_eq!(
        message(ProviderErrorKind::Http {
            status: 599,
            retry_after: Some(RetryAfter::At(1_445_412_480))
        }),
        "CoinGecko HTTP error: 599 <unknown status code>; retry at Wed, 21 Oct 2015 07:28:00 GMT"
    );
    assert_eq!(
        message(ProviderErrorKind::InvalidPayload { reason: "invalid JSON", cause: None }),
        "CoinGecko response invalid: invalid JSON"
    );
    assert_eq!(
        message(ProviderErrorKind::InvalidPayload {
            reason: "invalid JSON",
            cause: Some("expected value".to_string())
        }),
        "CoinGecko response invalid: invalid JSON"
    );
    assert_eq!(
        message(ProviderErrorKind::InvalidPrice { field: "bid", reason: "not a number" }),
        "CoinGecko price invalid at bid: not a number"
    );
    assert_eq!(
        RefreshError::Storage("details".to_string()).message(),
        "Failed to store refreshed price data"
    );
    assert_eq!(
        RefreshError::Provider(failed_request(UpstreamSource::Kraken, true, true)).message(),
        "Kraken request timed out"
    );
}

#[test]
fn failed_requests_are_classified() {
    let cause = || "the cause".to_string();
    let kind = |timed_out, invalid_json| {
        let error = failed_request(UpstreamSource::Gemini, timed_out, invalid_json);
        assert_eq!(error.provider, UpstreamSource::Gemini);
        assert_eq!(error.cause(), Some("the cause"));
        assert!(!error.message().contains("the cause"));
        assert!(format!("{error:?}").contains("the cause"));
        error.kind
    };
    assert_eq!(kind(true, false), ProviderErrorKind::Timeout(cause()));
    assert_eq!(kind(true, true), ProviderErrorKind::Timeout(cause()));
    assert_eq!(kind(false, false), ProviderErrorKind::Transport(cause()));
    assert_eq!(
        kind(false, true),
        ProviderErrorKind::InvalidPayload { reason: "invalid JSON", cause: Some(cause()) }
    );
}

#[test]
fn only_requests_and_malformed_payloads_have_a_cause() {
    let provider = UpstreamSource::Kraken;
    assert_eq!(ProviderError::invalid_payload(provider, "x").cause(), None);
    assert_eq!(ProviderError::invalid_price(provider, "x", "y").cause(), None);
    assert_eq!(ProviderError::oversized_response(provider).cause(), None);
    assert_eq!(check_status(provider, 500, None).unwrap_err().cause(), None);
}

#[test]
fn failures_are_recorded_for_clients() {
    let error = ProviderError {
        provider: UpstreamSource::CoinGecko,
        kind: ProviderErrorKind::Http { status: 429, retry_after: None },
    };
    let recorded = error.source_error();
    assert_eq!(recorded.category, ErrorCategory::Http);
    assert_eq!(recorded.message, "CoinGecko HTTP error: 429 Too Many Requests");
    assert_eq!(recorded.http_status, Some(429));
    for (kind, category) in [
        (ProviderErrorKind::Timeout(String::new()), ErrorCategory::Timeout),
        (ProviderErrorKind::Transport(String::new()), ErrorCategory::Transport),
        (
            ProviderErrorKind::InvalidPayload { reason: "x", cause: None },
            ErrorCategory::InvalidPayload,
        ),
        (
            ProviderErrorKind::InvalidPrice { field: "x", reason: "y" },
            ErrorCategory::InvalidPrice,
        ),
    ] {
        let recorded =
            ProviderError { provider: UpstreamSource::Kraken, kind }.source_error();
        assert_eq!(recorded.category, category);
        assert_eq!(recorded.http_status, None);
    }
}

#[test]
fn statuses_other_than_success_are_failures() {
    let provider = UpstreamSource::Coinbase;
    for status in [200, 204, 299] {
        assert_eq!(check_status(provider, status, Some(b"20")), Ok(()));
    }
    for status in [199, 300, 301, 404, 500] {
        assert_eq!(
            check_status(provider, status, None).unwrap_err().kind,
            ProviderErrorKind::Http { status, retry_after: None }
        );
    }
    let error = check_status(provider, 429, Some(b"20")).unwrap_err();
    assert_eq!(error.provider, provider);
    assert_eq!(
        error.kind,
        ProviderErrorKind::Http { status: 429, retry_after: Some(RetryAfter::Delay(20)) }
    );
    assert_eq!(error.retry_after(), Some(RetryAfter::Delay(20)));
    assert_eq!(failed_request(provider, true, false).retry_after(), None);
}
