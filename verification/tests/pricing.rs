use bitcoin_price_tracker::body::{append_chunk, declared_length_fits, MAX_PROVIDER_BYTES};
use bitcoin_price_tracker::errors::{ProviderError, ProviderErrorKind, RetryAfter};
use bitcoin_price_tracker::json::JsonNode;
use bitcoin_price_tracker::price::Price;
use bitcoin_price_tracker::pricing::{
    check_status, checked_price, read_body, read_payload, PriceReading, ProviderPayload,
    ProviderResponse,
};
use bitcoin_price_tracker::sources::UpstreamSource;

const ALL: [UpstreamSource; 4] = [
    UpstreamSource::CoinGecko,
    UpstreamSource::Coinbase,
    UpstreamSource::Kraken,
    UpstreamSource::Gemini,
];

fn number(text: &str) -> Option<Price> {
    text.parse::<f64>().ok().map(|amount| Price { bits: amount.to_bits() })
}

fn fetch(provider: UpstreamSource, body: &str) -> Result<f64, ProviderError> {
    let reading = read_body(provider, body.as_bytes())?;
    let price = checked_price(provider, &reading, number(&reading.amount))?;
    assert_eq!(price.source, provider.name());
    Ok(f64::from_bits(price.price_usd.bits))
}

fn fault(provider: UpstreamSource, body: &str) -> ProviderErrorKind {
    let error = fetch(provider, body).unwrap_err();
    assert_eq!(error.provider, provider);
    error.kind
}

fn payload_fault(reason: &'static str) -> ProviderErrorKind {
    ProviderErrorKind::InvalidPayload { reason, cause: None }
}

#[test]
fn documented_payloads_are_read() {
    assert_eq!(fetch(UpstreamSource::CoinGecko, r#"{"bitcoin":{"usd":100000.5}}"#), Ok(100000.5));
    assert_eq!(fetch(UpstreamSource::CoinGecko, r#"{"bitcoin":{"usd":123000}}"#), Ok(123000.0));
    assert_eq!(
        fetch(
            UpstreamSource::Coinbase,
            r#"{"data":{"base":"BTC","currency":"USD","amount":"100100.00"}}"#
        ),
        Ok(100100.0)
    );
    assert_eq!(
        fetch(UpstreamSource::Coinbase, r#"{"data":{"currency":"USD","amount":"100100.00"}}"#),
        Ok(100100.0)
    );
    assert_eq!(
        fetch(
            UpstreamSource::Kraken,
            r#"{"error":[],"result":{"AAA":{"c":["1"]},"XXBTZUSD":{"c":["100200.00","1"]}}}"#
        ),
        Ok(100200.0)
    );
    assert_eq!(
        fetch(UpstreamSource::Gemini, r#"{"symbol":"BTCUSD","bid":"100300.00"}"#),
        Ok(100300.0)
    );
    assert_eq!(
        fetch(UpstreamSource::Gemini, r#"{"symbol":"btcUsd","bid":"100300.00"}"#),
        Ok(100300.0)
    );
}

#[test]
fn missing_provider_fields_are_invalid_payloads() {
    for (provider, reason) in [
        (UpstreamSource::CoinGecko, "missing numeric bitcoin.usd"),
        (UpstreamSource::Coinbase, "missing string data.amount"),
        (UpstreamSource::Kraken, "missing result entry"),
        (UpstreamSource::Gemini, "missing string bid"),
    ] {
        assert_eq!(fault(provider, "{}"), payload_fault(reason));
        assert_eq!(fault(provider, "[1]"), payload_fault(reason));
    }
}

#[test]
fn malformed_json_is_an_invalid_payload() {
    for provider in ALL {
        for body in ["not json", "", "{", "{\"a\":1} x", "\u{0}"] {
            let kind = fault(provider, body);
            assert!(
                matches!(
                    &kind,
                    ProviderErrorKind::InvalidPayload { reason: "invalid JSON", cause: Some(_) }
                ),
                "{kind:?}"
            );
        }
    }
    assert_eq!(
        fault(UpstreamSource::Gemini, "nothing"),
        ProviderErrorKind::InvalidPayload {
            reason: "invalid JSON",
            cause: Some("expected ident at line 1 column 2".to_string())
        }
    );
}

#[test]
fn provider_fixtures_support_http_errors_malformed_json_and_recovery() {
    let provider = UpstreamSource::CoinGecko;
    let error = check_status(provider, 429, Some(b"20")).unwrap_err();
    assert_eq!(error.provider, UpstreamSource::CoinGecko);
    assert_eq!(
        error.kind,
        ProviderErrorKind::Http { status: 429, retry_after: Some(RetryAfter::Delay(20)) }
    );
    let error = fetch(provider, "not json").unwrap_err();
    assert!(error.cause().is_some());
    assert!(
        matches!(error.kind, ProviderErrorKind::InvalidPayload { cause: Some(_), .. }),
        "{error:?}"
    );
    assert_eq!(check_status(provider, 200, None), Ok(()));
    assert_eq!(fetch(provider, r#"{"bitcoin":{"usd":101000.0}}"#), Ok(101_000.0));
}

#[test]
fn wrongly_typed_fields_are_invalid_payloads() {
    assert_eq!(
        fault(UpstreamSource::CoinGecko, r#"{"bitcoin":{"usd":"100"}}"#),
        payload_fault("missing numeric bitcoin.usd")
    );
    assert_eq!(
        fault(UpstreamSource::Coinbase, r#"{"data":{"currency":"USD","amount":100}}"#),
        payload_fault("missing string data.amount")
    );
    for close in [r#"{"0":"5"}"#, "[]", "[5]", "null"] {
        assert_eq!(
            fault(
                UpstreamSource::Kraken,
                &format!(r#"{{"error":[],"result":{{"XXBTZUSD":{{"c":{close}}}}}}}"#)
            ),
            payload_fault("missing string result.*.c[0]")
        );
    }
    assert_eq!(
        fault(UpstreamSource::Kraken, r#"{"error":[],"result":{"XETHZUSD":{"c":["1"]}}}"#),
        payload_fault("missing result entry")
    );
    assert_eq!(
        fault(UpstreamSource::Gemini, r#"{"symbol":"BTCUSD","bid":null}"#),
        payload_fault("missing string bid")
    );
}

#[test]
fn invalid_numeric_prices_are_rejected_by_each_provider() {
    for amount in ["0", "-1", "NaN", "inf", "-inf", "not-a-price"] {
        for (source, body) in [
            (UpstreamSource::Coinbase, format!(r#"{{"data":{{"amount":"{amount}"}}}}"#)),
            (
                UpstreamSource::Kraken,
                format!(r#"{{"result":{{"XXBTZUSD":{{"c":["{amount}"]}}}}}}"#),
            ),
            (UpstreamSource::Gemini, format!(r#"{{"bid":"{amount}"}}"#)),
        ] {
            assert!(matches!(fault(source, &body), ProviderErrorKind::InvalidPrice { .. }));
        }
    }
    for amount in ["0.0", "-1.0"] {
        let body = format!(r#"{{"bitcoin":{{"usd":{amount}}}}}"#);
        assert!(matches!(
            fault(UpstreamSource::CoinGecko, &body),
            ProviderErrorKind::InvalidPrice { .. }
        ));
    }
}

#[test]
fn price_faults_name_field_and_reason() {
    assert_eq!(
        fault(UpstreamSource::Kraken, r#"{"error":[],"result":{"XXBTZUSD":{"c":["x"]}}}"#),
        ProviderErrorKind::InvalidPrice { field: "result.*.c[0]", reason: "not a number" }
    );
    assert_eq!(
        fault(UpstreamSource::Coinbase, r#"{"data":{"currency":"USD","amount":"-1"}}"#),
        ProviderErrorKind::InvalidPrice {
            field: "data.amount",
            reason: "expected a finite positive number"
        }
    );
    assert_eq!(
        fault(UpstreamSource::CoinGecko, r#"{"bitcoin":{"usd":0}}"#),
        ProviderErrorKind::InvalidPrice {
            field: "bitcoin.usd",
            reason: "expected a finite positive number"
        }
    );
    assert_eq!(
        fault(UpstreamSource::Gemini, r#"{"symbol":"BTCUSD","bid":"x"}"#),
        ProviderErrorKind::InvalidPrice { field: "bid", reason: "not a number" }
    );
}

#[test]
fn other_markets_are_rejected() {
    assert_eq!(
        fault(UpstreamSource::Coinbase, r#"{"data":{"currency":"EUR","amount":"1"}}"#),
        payload_fault("currency is not USD")
    );
    assert_eq!(
        fault(UpstreamSource::Coinbase, r#"{"data":{"amount":"1"}}"#),
        payload_fault("currency is not USD")
    );
    assert_eq!(
        fault(
            UpstreamSource::Coinbase,
            r#"{"data":{"base":"ETH","currency":"USD","amount":"1"}}"#
        ),
        payload_fault("base is not BTC")
    );
    assert_eq!(
        fault(UpstreamSource::Gemini, r#"{"symbol":"ETHUSD","bid":"1"}"#),
        payload_fault("symbol is not BTCUSD")
    );
    assert_eq!(
        fault(UpstreamSource::Gemini, r#"{"symbol":"BTCUSDT","bid":"1"}"#),
        payload_fault("symbol is not BTCUSD")
    );
    assert_eq!(
        fault(UpstreamSource::Gemini, r#"{"bid":"1"}"#),
        payload_fault("symbol is not BTCUSD")
    );
}

#[test]
fn kraken_errors_are_rejected_even_with_a_price() {
    assert_eq!(
        fault(
            UpstreamSource::Kraken,
            r#"{"error":["EGeneral:Busy"],"result":{"XXBTZUSD":{"c":["1"]}}}"#
        ),
        payload_fault("API error reported")
    );
    assert_eq!(
        fault(UpstreamSource::Kraken, r#"{"error":["EGeneral:Busy"]}"#),
        payload_fault("API error reported")
    );
    assert_eq!(
        fault(UpstreamSource::Kraken, r#"{"result":{"XXBTZUSD":{"c":["1"]}}}"#),
        payload_fault("missing empty error list")
    );
    assert_eq!(
        fault(UpstreamSource::Kraken, r#"{"error":"","result":{"XXBTZUSD":{"c":["1"]}}}"#),
        payload_fault("missing empty error list")
    );
}

fn empty_payload() -> ProviderPayload {
    ProviderPayload {
        amount: None,
        errors: None,
        entry: None,
        close: None,
        currency: None,
        base: None,
        symbol: None,
    }
}

#[test]
fn payloads_are_read_from_their_nodes() {
    let mut payload = empty_payload();
    payload.amount = Some(JsonNode::Number("5.25".to_string()));
    assert_eq!(
        read_payload(UpstreamSource::CoinGecko, &payload),
        Ok(PriceReading { amount: "5.25".to_string(), market_fault: None })
    );
    payload.amount = Some(JsonNode::Text("7".to_string()));
    assert_eq!(
        read_payload(UpstreamSource::Gemini, &payload),
        Ok(PriceReading {
            amount: "7".to_string(),
            market_fault: Some("symbol is not BTCUSD")
        })
    );
    payload.entry = Some(JsonNode::Object);
    payload.close = Some(JsonNode::Array(1));
    payload.errors = Some(JsonNode::Array(0));
    assert_eq!(
        read_payload(UpstreamSource::Kraken, &payload),
        Ok(PriceReading { amount: "7".to_string(), market_fault: None })
    );
    payload.currency = Some(JsonNode::Text("USD".to_string()));
    payload.base = Some(JsonNode::Null);
    assert_eq!(
        read_payload(UpstreamSource::Coinbase, &payload),
        Ok(PriceReading { amount: "7".to_string(), market_fault: Some("base is not BTC") })
    );
}

#[test]
fn prices_are_accepted_given_their_number() {
    let reading = PriceReading { amount: "ignored".to_string(), market_fault: None };
    let price = checked_price(UpstreamSource::Gemini, &reading, number("12.5")).unwrap();
    assert_eq!(price.source, "Gemini");
    assert_eq!(f64::from_bits(price.price_usd.bits), 12.5);
    assert_eq!(
        checked_price(UpstreamSource::Gemini, &reading, None).unwrap_err().kind,
        ProviderErrorKind::InvalidPrice { field: "bid", reason: "not a number" }
    );
}

#[test]
fn bodies_are_bounded() {
    assert_eq!(MAX_PROVIDER_BYTES, 64 * 1024);
    assert!(declared_length_fits(None, 10));
    assert!(declared_length_fits(Some(10), 10));
    assert!(!declared_length_fits(Some(11), 10));
    let mut body = Vec::new();
    assert!(append_chunk(&mut body, b"abc", 5));
    assert!(append_chunk(&mut body, b"de", 5));
    assert!(!append_chunk(&mut body, b"f", 5));
    assert!(append_chunk(&mut body, b"", 5));
    assert_eq!(body, b"abcde");
}

#[test]
fn oversized_responses_are_refused() {
    for provider in ALL {
        let oversized = ProviderError {
            provider,
            kind: payload_fault("response exceeded size limit"),
        };
        assert!(oversized.message().ends_with(" response invalid: response exceeded size limit"));
        let open = |declared| ProviderResponse::open(provider, 200, None, declared);
        for declared in [None, Some(0), Some(65_536)] {
            assert_eq!(open(declared), Ok(ProviderResponse { provider, body: Vec::new() }));
        }
        for declared in [Some(65_537), Some(u64::MAX)] {
            assert_eq!(open(declared).unwrap_err(), oversized);
        }
        let mut response = open(None).unwrap();
        assert_eq!(response.receive(&[1; 65_000]), Ok(()));
        assert_eq!(response.receive(&[2; 537]).unwrap_err(), oversized);
        assert_eq!(response.body.len(), 65_000);
        assert_eq!(response.receive(&[2; 536]), Ok(()));
        assert_eq!(response.body.len(), 65_536);
        assert_eq!((response.body[64_999], response.body[65_000]), (1, 2));
        assert_eq!(response.receive(&[]), Ok(()));
        assert_eq!(response.receive(&[3]).unwrap_err(), oversized);
    }
}

#[test]
fn responses_are_received_and_read() {
    let provider = UpstreamSource::Gemini;
    let refused = ProviderResponse::open(provider, 503, Some(b"7"), Some(u64::MAX)).unwrap_err();
    assert_eq!(
        refused.kind,
        ProviderErrorKind::Http { status: 503, retry_after: Some(RetryAfter::Delay(7)) }
    );
    let mut response = ProviderResponse::open(provider, 200, Some(b"7"), Some(30)).unwrap();
    assert_eq!(response.receive(br#"{"symbol":"BTCUSD""#), Ok(()));
    assert!(response.finish().unwrap_err().cause().is_some());
    assert_eq!(response.receive(br#","bid":"5.5"}"#), Ok(()));
    assert_eq!(
        response.finish(),
        Ok(PriceReading { amount: "5.5".to_string(), market_fault: None })
    );
}
