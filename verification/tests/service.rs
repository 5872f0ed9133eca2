use bitcoin_price_tracker::clock::{now_unix, unix_seconds, Moment, LAST_MOMENT_NANOS};
use bitcoin_price_tracker::config::{RuntimeConfig, Settings, UpstreamEndpoints};
use bitcoin_price_tracker::handlers::health_reply;
use bitcoin_price_tracker::lifecycle::{
    ConnectionGate, ConnectionLimits, HeadState, HeadWatch, MAX_HEAD_BYTES,
};
use bitcoin_price_tracker::limits::{
    accept_request, Gate, Refusal, RefusalReply, RequestLimits, RouteGroup,
};
use bitcoin_price_tracker::models::source_contract::{
    ErrorCategory, PriceStatus, QuoteKind, SourceFreshness,
};
use bitcoin_price_tracker::news::{read_feed, receive_feed_chunk, FeedCache, MAX_FEED_BYTES};
use bitcoin_price_tracker::sources::UpstreamSource;
use bitcoin_price_tracker::ui::security_headers;

const SECOND: u128 = 1_000_000_000;

fn at(seconds: u128) -> Moment {
    Moment { nanos: seconds * SECOND }
}

fn no_settings() -> Settings {
    Settings {
        bind_address: None,
        max_viewers: None,
        requests_per_second: None,
        concurrency: None,
        shutdown_seconds: None,
    }
}

fn setting(key: &str, value: &str) -> Settings {
    let mut settings = no_settings();
    let text = Some(value.to_string());
    match key {
        "MAX_VIEWERS" => settings.max_viewers = text,
        "REQUESTS_PER_SECOND" => settings.requests_per_second = text,
        "REQUEST_CONCURRENCY" => settings.concurrency = text,
        "SHUTDOWN_SECONDS" => settings.shutdown_seconds = text,
        _ => settings.bind_address = text,
    }
    settings
}

#[test]
fn operational_config_validates_bounds_and_addresses() {
    let defaults = RuntimeConfig::parse(&no_settings(), None).unwrap();
    assert_eq!(defaults.max_viewers, 1000);
    for key in ["MAX_VIEWERS", "REQUESTS_PER_SECOND", "REQUEST_CONCURRENCY", "SHUTDOWN_SECONDS"] {
        for value in ["0", "-1", "bad", "999999999999999999999999"] {
            assert!(RuntimeConfig::parse(&setting(key, value), None).is_err());
        }
    }
    for (address, port) in [("localhost:3000", None), ("0.0.0.0:0", Some(0)), ("bad", None)] {
        assert!(RuntimeConfig::parse(&setting("BIND_ADDRESS", address), port).is_err());
    }
    let ipv6 = RuntimeConfig::parse(&setting("BIND_ADDRESS", "[::1]:4000"), Some(4000)).unwrap();
    assert_eq!(ipv6.bind_address, "[::1]:4000");
}

#[test]
fn settings_are_read_within_their_bounds() {
    assert_eq!(
        RuntimeConfig::parse(&no_settings(), None),
        Ok(RuntimeConfig {
            bind_address: "0.0.0.0:3000".to_string(),
            max_viewers: 1000,
            requests_per_second: 100,
            concurrency: 64,
            shutdown_seconds: 25,
        })
    );
    for (key, max) in [
        ("MAX_VIEWERS", 100_000),
        ("REQUESTS_PER_SECOND", 10_000),
        ("REQUEST_CONCURRENCY", 1024),
        ("SHUTDOWN_SECONDS", 120),
    ] {
        assert!(RuntimeConfig::parse(&setting(key, "1"), None).is_ok());
        assert!(RuntimeConfig::parse(&setting(key, &max.to_string()), None).is_ok());
        let expected = format!("{key} must be an integer from 1 to {max}");
        for value in [(max + 1).to_string().as_str(), "", "+", " 5", "5 ", "1.0", "\u{661}"] {
            assert_eq!(
                RuntimeConfig::parse(&setting(key, value), None),
                Err(expected.clone())
            );
        }
    }
    let config = RuntimeConfig::parse(&setting("MAX_VIEWERS", "+007"), None).unwrap();
    assert_eq!(config.max_viewers, 7);
    assert_eq!(
        RuntimeConfig::parse(&setting("BIND_ADDRESS", "bad"), None).unwrap_err(),
        "BIND_ADDRESS must be an IP address and nonzero port, for example 0.0.0.0:3000"
    );
}

#[test]
fn the_first_refused_setting_is_reported() {
    let mut settings = setting("MAX_VIEWERS", "0");
    settings.shutdown_seconds = Some("0".to_string());
    assert!(RuntimeConfig::parse(&settings, None).unwrap_err().starts_with("MAX_VIEWERS"));
    settings.bind_address = Some("bad".to_string());
    assert!(RuntimeConfig::parse(&settings, None).unwrap_err().starts_with("BIND_ADDRESS"));
}

#[test]
fn endpoints_ask_for_bitcoin_in_dollars() {
    let endpoints = UpstreamEndpoints::default();
    assert_eq!(endpoints.endpoint(UpstreamSource::CoinGecko), endpoints.coingecko);
    assert_eq!(endpoints.endpoint(UpstreamSource::Coinbase), endpoints.coinbase);
    assert_eq!(endpoints.endpoint(UpstreamSource::Kraken), endpoints.kraken);
    assert_eq!(endpoints.endpoint(UpstreamSource::Gemini), endpoints.gemini);
    assert_eq!(endpoints.coinbase, "https://api.coinbase.com/v2/prices/BTC-USD/spot");
    assert_eq!(
        endpoints.coingecko,
        "https://api.coingecko.com/api/v3/simple/price?ids=bitcoin&vs_currencies=usd"
    );
    assert_eq!(endpoints.kraken, "https://api.kraken.com/0/public/Ticker?pair=XBTUSD");
    assert_eq!(endpoints.gemini, "https://api.gemini.com/v2/ticker/btcusd");
}

#[test]
fn enum_wire_values_are_stable() {
    assert_eq!(
        [
            PriceStatus::Live,
            PriceStatus::Degraded,
            PriceStatus::Stale,
            PriceStatus::Unavailable
        ]
        .map(PriceStatus::text),
        ["LIVE", "DEGRADED", "STALE", "UNAVAILABLE"]
    );
    assert_eq!(
        [
            QuoteKind::Aggregate,
            QuoteKind::Spot,
            QuoteKind::LastTrade,
            QuoteKind::Bid,
            QuoteKind::Unknown
        ]
        .map(QuoteKind::text),
        ["aggregate", "spot", "last_trade", "bid", "unknown"]
    );
    assert_eq!(
        [
            SourceFreshness::Fresh,
            SourceFreshness::Stale,
            SourceFreshness::Unknown,
            SourceFreshness::Future
        ]
        .map(SourceFreshness::text),
        ["fresh", "stale", "unknown", "future"]
    );
    assert_eq!(
        [
            ErrorCategory::Timeout,
            ErrorCategory::Transport,
            ErrorCategory::Http,
            ErrorCategory::InvalidPayload,
            ErrorCategory::InvalidPrice
        ]
        .map(ErrorCategory::text),
        ["timeout", "transport", "http", "invalid_payload", "invalid_price"]
    );
}

#[test]
fn wire_values_are_read_back() {
    for kind in [
        QuoteKind::Aggregate,
        QuoteKind::Spot,
        QuoteKind::LastTrade,
        QuoteKind::Bid,
        QuoteKind::Unknown,
    ] {
        assert_eq!(QuoteKind::from_text(kind.text()), Some(kind));
    }
    assert_eq!(QuoteKind::from_text("Bid"), None);
    assert_eq!(ErrorCategory::from_text("http"), Some(ErrorCategory::Http));
    assert_eq!(ErrorCategory::from_text("HTTP"), None);
    assert_eq!(UpstreamSource::named("Kraken"), Some(UpstreamSource::Kraken));
    assert_eq!(UpstreamSource::named("kraken"), None);
    for index in 0..4 {
        let source = UpstreamSource::at(index);
        assert_eq!(source.index(), index);
        assert_eq!(UpstreamSource::named(source.name()), Some(source));
    }
}

#[test]
fn buckets_burst_and_refill() {
    let mut gate = Gate::new(2, 1, at(0));
    assert!(gate.allow(at(0)));
    assert!(gate.allow(at(0)));
    assert!(!gate.allow(at(0)));
    assert!(!gate.allow(Moment { nanos: SECOND / 2 - 1 }));
    assert!(gate.allow(Moment { nanos: SECOND / 2 }));
    assert!(!gate.allow(Moment { nanos: SECOND / 2 }));
    assert!(gate.allow(at(100)));
    assert!(gate.allow(at(100)));
    assert!(!gate.allow(at(100)));
    let mut largest = Gate::new(usize::MAX, 1, at(0));
    assert!(largest.allow(Moment { nanos: u128::MAX }));
    let mut none = Gate::new(0, 1, at(0));
    assert!(!none.allow(at(1_000)));
}

#[test]
fn refused_requests_cost_nothing() {
    let mut gate = Gate::new(10, 1, at(0));
    for _ in 0..10 {
        assert!(gate.allow(at(0)));
    }
    for tick in 1..10 {
        assert!(!gate.allow(Moment { nanos: tick * 10_000_000 }));
    }
    assert!(gate.allow(Moment { nanos: 100_000_000 }));
    assert!(!gate.allow(Moment { nanos: 100_000_000 }));
}

#[test]
fn groups_have_capacity_of_their_own() {
    let config = RuntimeConfig { requests_per_second: 2, ..RuntimeConfig::default() };
    let mut limits = RequestLimits::new(&config, at(0));
    assert_eq!(limits.health.rate, 10);
    assert_eq!(limits.health.concurrency, 4);
    assert_eq!(limits.price.concurrency, 64);
    assert!(limits.allow(RouteGroup::Price, at(0)));
    assert!(limits.allow(RouteGroup::Price, at(0)));
    assert!(!limits.allow(RouteGroup::Price, at(0)));
    for _ in 0..10 {
        assert!(limits.allow(RouteGroup::Health, at(0)));
    }
    assert!(!limits.allow(RouteGroup::Health, at(0)));
    assert!(limits.allow(RouteGroup::Presence, at(0)));
    assert!(limits.allow(RouteGroup::Assets, at(0)));
    assert!(limits.allow(RouteGroup::Price, Moment { nanos: SECOND / 2 }));
}

#[test]
fn paths_belong_to_groups() {
    for (path, group) in [
        ("/api/price", RouteGroup::Price),
        ("/api/presence", RouteGroup::Presence),
        ("/health", RouteGroup::Health),
        ("/", RouteGroup::Assets),
        ("/api/price/", RouteGroup::Assets),
        ("/missing", RouteGroup::Assets),
    ] {
        assert_eq!(RouteGroup::of(path), group);
    }
}

#[test]
fn refusals_are_answered() {
    assert_eq!(accept_request(true, true), Ok(()));
    assert_eq!(accept_request(false, true), Err(Refusal::RateLimited));
    assert_eq!(accept_request(false, false), Err(Refusal::RateLimited));
    assert_eq!(accept_request(true, false), Err(Refusal::Busy));
    assert_eq!(
        Refusal::RateLimited.reply(),
        RefusalReply {
            status: 429,
            retry_after_seconds: Some(1),
            error: "Request rate limit reached; retry later.",
        }
    );
    assert_eq!(
        Refusal::Busy.reply(),
        RefusalReply {
            status: 503,
            retry_after_seconds: Some(1),
            error: "Server busy; retry later.",
        }
    );
    assert_eq!(
        Refusal::DeadlineExceeded.reply(),
        RefusalReply {
            status: 408,
            retry_after_seconds: None,
            error: "Request deadline exceeded.",
        }
    );
}

#[test]
fn cached_feed_and_failures_are_served_without_refetching() {
    for (xml, stale, expected_status) in [
        (Some("<rss><channel/></rss>".to_string()), false, 200),
        (Some("<rss><channel/></rss>".to_string()), true, 200),
        (None, true, 503),
    ] {
        let cache = FeedCache { checked_at: Some(at(5)), xml: xml.clone(), stale };
        assert!(!cache.is_due(at(5)));
        let reply = cache.reply();
        assert_eq!(reply.status, expected_status);
        assert_eq!(reply.xml, xml);
        assert_eq!(reply.stale, stale);
    }
}

#[test]
fn feeds_are_fetched_once_in_an_interval() {
    let mut cache = FeedCache::default();
    assert!(cache.is_due(at(0)));
    cache.record(Err("failed".to_string()), at(10));
    assert!(cache.stale);
    assert_eq!(cache.reply().status, 503);
    assert!(!cache.is_due(Moment { nanos: 310 * SECOND - 1 }));
    assert!(cache.is_due(at(310)));
    cache.record(Ok("<rss>1".to_string()), at(310));
    assert!(!cache.stale);
    cache.record(Err("failed".to_string()), at(700));
    assert!(cache.stale);
    assert_eq!(cache.xml.as_deref(), Some("<rss>1"));
    assert_eq!(cache.reply().status, 200);
    assert!(!cache.is_due(at(999)));
}

#[test]
fn feeds_must_look_like_feeds() {
    assert_eq!(
        read_feed(b"<?xml?><rss><channel>\xe2\x82\xbf</channel></rss>"),
        Ok("<?xml?><rss><channel>\u{20bf}</channel></rss>".to_string())
    );
    for good in ["<rss<channel", "<<rss\u{20bf}<<channel", "<channel><rs<rss"] {
        assert_eq!(read_feed(good.as_bytes()), Ok(good.to_string()));
    }
    for bad in ["", "<rs", "<rss>", "<channel>", "<html>", "rss channel", "<rss<channe"] {
        assert_eq!(
            read_feed(bad.as_bytes()),
            Err("Upstream did not return an RSS feed".to_string())
        );
    }
    assert_eq!(
        read_feed(b"<rss>\xff"),
        Err("invalid utf-8 sequence of 1 bytes from index 5".to_string())
    );
    let mut large = b"<rss><channel>".to_vec();
    large.resize(MAX_FEED_BYTES, b' ');
    assert!(read_feed(&large).is_ok());
    large.push(b' ');
    assert_eq!(read_feed(&large), Err("RSS response exceeded size limit".to_string()));
}

#[test]
fn feeds_are_received_within_their_limit() {
    let mut feed = vec![b' '; MAX_FEED_BYTES - 3];
    assert_eq!(receive_feed_chunk(&mut feed, b"abc"), Ok(()));
    assert!(feed.ends_with(b" abc"));
    assert_eq!(
        receive_feed_chunk(&mut feed, b"d"),
        Err("RSS response exceeded size limit".to_string())
    );
    assert_eq!(feed.len(), MAX_FEED_BYTES);
    assert!(feed.ends_with(b" abc"));
}

#[test]
fn connections_have_default_limits() {
    let limits = ConnectionLimits::default();
    assert_eq!(
        limits,
        ConnectionLimits { max_connections: 512, header_millis: 5_000, lifetime_millis: 30_000 }
    );
}

#[test]
fn headers_cover_every_reply() {
    for (path, uncacheable) in [
        ("/", false),
        ("/assets/dashboard.css", false),
        ("/missing", false),
        ("/api/price", true),
        ("/api/", true),
        ("/api", false),
        ("/health", true),
        ("/healthy", false),
    ] {
        let headers = security_headers(path);
        let value = |name: &str| {
            headers.iter().find(|header| header.name == name).map(|header| header.value)
        };
        let policy = value("content-security-policy").unwrap();
        assert!(policy.contains("script-src 'self'"));
        assert!(policy.contains("frame-ancestors 'none'"));
        assert!(!policy.contains("unsafe-inline"));
        assert_eq!(value("x-content-type-options"), Some("nosniff"));
        assert_eq!(value("x-frame-options"), Some("DENY"));
        assert_eq!(value("referrer-policy"), Some("no-referrer"));
        assert_eq!(value("cache-control"), if uncacheable { Some("no-store") } else { None });
    }
}

#[test]
fn health_checks_are_answered() {
    assert_eq!(health_reply(true).status, 200);
    assert_eq!(health_reply(true).text, "ok");
    assert_eq!(health_reply(false).status, 503);
    assert_eq!(health_reply(false).text, "unavailable");
}

#[test]
fn connections_are_bounded_with_room_for_probes() {
    let mut gate = ConnectionGate::new(6);
    assert!(gate.enter(false));
    assert!(gate.enter(false));
    assert!(!gate.enter(false));
    for _ in 0..4 {
        assert!(gate.enter(true));
    }
    assert!(!gate.enter(true));
    gate.leave(false);
    assert!(gate.enter(false));
    gate.leave(true);
    assert!(!gate.enter(false));
    assert!(gate.enter(true));
    let mut single = ConnectionGate::new(1);
    assert!(single.enter(true));
    assert!(!single.enter(true));
    single.leave(true);
    assert!(single.enter(false));
    assert!(!ConnectionGate::new(0).enter(true));
}

#[test]
fn request_heads_end_with_an_empty_line() {
    let mut watch = HeadWatch::new();
    watch.receive(b"GET / HTTP/1.1\r\nHost: x\r");
    assert_eq!(watch.state(), HeadState::Incomplete);
    watch.receive(b"\n\r");
    assert_eq!(watch.state(), HeadState::Incomplete);
    watch.receive(b"\nbody");
    assert_eq!(watch.state(), HeadState::Complete);
    watch.receive(b"more");
    assert_eq!(watch.state(), HeadState::Complete);
    let mut long = HeadWatch::new();
    long.receive(&vec![b'a'; MAX_HEAD_BYTES]);
    assert_eq!(long.state(), HeadState::Incomplete);
    long.receive(b"a\r\n\r\n");
    assert_eq!(long.state(), HeadState::TooLong);
    let mut exact = HeadWatch::new();
    exact.receive(&vec![b'a'; MAX_HEAD_BYTES - 4]);
    exact.receive(b"\r\n\r\n");
    assert_eq!(exact.state(), HeadState::Complete);
}

fn head_state(chunks: &[&[u8]]) -> HeadState {
    let mut watch = HeadWatch::new();
    for chunk in chunks {
        watch.receive(chunk);
    }
    let mut bytewise = HeadWatch::new();
    for byte in chunks.concat() {
        bytewise.receive(&[byte]);
    }
    assert_eq!(watch.state(), bytewise.state());
    watch.state()
}

#[test]
fn line_feeds_alone_close_lines() {
    for head in ["GET / HTTP/1.1\n\n", "GET / HTTP/1.1\n\r\n", "GET / HTTP/1.1\r\n\n"] {
        assert_eq!(head_state(&[head.as_bytes()]), HeadState::Complete);
        let (start, end) = head.as_bytes().split_at(head.len() - 1);
        assert_eq!(head_state(&[start]), HeadState::Incomplete);
        assert_eq!(head_state(&[start, end]), HeadState::Complete);
    }
    assert_eq!(head_state(&[b"GET / HTTP/1.1\nHost: x\n\nbody"]), HeadState::Complete);
    for head in ["GET / HTTP/1.1\n", "GET / HTTP/1.1\n\r", "G\r\r\n\rH\n", "G\n\r\r\n"] {
        assert_eq!(head_state(&[head.as_bytes()]), HeadState::Incomplete, "{head:?}");
    }
}

#[test]
fn empty_lines_before_a_request_end_no_head() {
    for lines in ["\r\n\r\n", "\n\n", "\n\r\n", "\r\n\n", "\r\n\r\n\r\n\r", "\n\n\n\n"] {
        assert_eq!(head_state(&[lines.as_bytes()]), HeadState::Incomplete, "{lines:?}");
    }
    let request = b"\r\n\r\n\nGET / HTTP/1.1\r\nHost: x\r\n";
    assert_eq!(head_state(&[request]), HeadState::Incomplete);
    assert_eq!(head_state(&[request, b"\r", b"\n"]), HeadState::Complete);
    assert_eq!(head_state(&[&vec![b'\n'; MAX_HEAD_BYTES]]), HeadState::Incomplete);
    assert_eq!(head_state(&[&vec![b'\n'; MAX_HEAD_BYTES + 1]]), HeadState::TooLong);
}

#[test]
fn moments_are_checked() {
    assert_eq!(at(5).since(at(3)), 2 * SECOND);
    assert_eq!(at(3).since(at(5)), 0);
    assert_eq!(at(3).checked_add_seconds(4), Some(at(7)));
    assert_eq!(at(3).checked_add_seconds(u64::MAX), None);
    let last = Moment { nanos: LAST_MOMENT_NANOS };
    assert_eq!(last.checked_add_seconds(0), Some(last));
    assert_eq!(last.checked_add_seconds(1), None);
    assert_eq!(at(3).add_seconds(4), at(7));
}

#[test]
fn wall_clock_seconds() {
    assert_eq!(unix_seconds(None), 0);
    assert_eq!(unix_seconds(Some(1_700_000_000)), 1_700_000_000);
    assert_eq!(unix_seconds(Some(i64::MAX as u64)), i64::MAX);
    assert!(now_unix() > 1_600_000_000);
}
