//! Cadence, freshness and admission settings.
use crate::sources::UpstreamSource;
use crate::text::{
    all_digits, append_decimal, char_bytes, decimal, digit_byte, digits_value,
    law_digits_are_ascii_digits, law_numerals_read_back, parse_digits,
};
use vstd::prelude::*;
use vstd::utf8::{encode_utf8, is_ascii_chars, is_ascii_chars_encode_utf8};

verus! {

/// The shortest time between two refreshes, in seconds.
pub const REFRESH_INTERVAL_SECONDS: i64 = 10;

/// The age from which an observation is stale, in seconds.
pub const SOURCE_MAX_AGE_SECONDS: u64 = 90;

/// The time for which a viewer stays active after a heartbeat, in seconds.
pub const VIEWER_TTL_SECONDS: i64 = 15;

/// The longest time to connect to a provider, in seconds.
pub const UPSTREAM_CONNECT_SECONDS: u64 = 2;

/// The longest time for a whole provider request, in seconds.
pub const UPSTREAM_REQUEST_SECONDS: u64 = 5;

/// The longest time for a request to this service, in seconds.
pub const REQUEST_DEADLINE_SECONDS: u64 = 20;

/// The largest body of a presence announcement, in bytes.
pub const PRESENCE_BODY_BYTES: usize = 1024;

/// Where the providers are asked.
#[derive(Debug, PartialEq)]
pub struct UpstreamEndpoints {
    pub coingecko: String,
    pub coinbase: String,
    pub kraken: String,
    pub gemini: String,
}

impl UpstreamEndpoints {
    /// Where a provider is asked.
    pub fn endpoint(&self, source: UpstreamSource) -> (url: &str)
        ensures
            url@ == match source {
                UpstreamSource::CoinGecko => self.coingecko@,
                UpstreamSource::Coinbase => self.coinbase@,
                UpstreamSource::Kraken => self.kraken@,
                UpstreamSource::Gemini => self.gemini@,
            },
    {
        match source {
            UpstreamSource::CoinGecko => self.coingecko.as_str(),
            UpstreamSource::Coinbase => self.coinbase.as_str(),
            UpstreamSource::Kraken => self.kraken.as_str(),
            UpstreamSource::Gemini => self.gemini.as_str(),
        }
    }
}

impl Default for UpstreamEndpoints {
    fn default() -> (endpoints: Self)
        ensures
            endpoints.coingecko@
                == "https://api.coingecko.com/api/v3/simple/price?ids=bitcoin&vs_currencies=usd"@,
            endpoints.coinbase@ == "https://api.coinbase.com/v2/prices/BTC-USD/spot"@,
            endpoints.kraken@ == "https://api.kraken.com/0/public/Ticker?pair=XBTUSD"@,
            endpoints.gemini@ == "https://api.gemini.com/v2/ticker/btcusd"@,
    {
        UpstreamEndpoints {
            coingecko:
                "https://api.coingecko.com/api/v3/simple/price?ids=bitcoin&vs_currencies=usd".to_owned(),
            coinbase: "https://api.coinbase.com/v2/prices/BTC-USD/spot".to_owned(),
            kraken: "https://api.kraken.com/0/public/Ticker?pair=XBTUSD".to_owned(),
            gemini: "https://api.gemini.com/v2/ticker/btcusd".to_owned(),
        }
    }
}

/// The settings of a process.
#[derive(Debug, PartialEq)]
pub struct RuntimeConfig {
    /// The IP address and port to listen on, as text.
    pub bind_address: String,
    pub max_viewers: usize,
    pub requests_per_second: usize,
    pub concurrency: usize,
    pub shutdown_seconds: u64,
}

impl Default for RuntimeConfig {
    fn default() -> (config: Self)
        ensures
            config.bind_address@ == "0.0.0.0:3000"@,
            config.max_viewers == 1000,
            config.requests_per_second == 100,
            config.concurrency == 64,
            config.shutdown_seconds == 25,
            config.wf(),
    {
        RuntimeConfig {
            bind_address: "0.0.0.0:3000".to_owned(),
            max_viewers: 1000,
            requests_per_second: 100,
            concurrency: 64,
            shutdown_seconds: 25,
        }
    }
}

/// The settings that were given, as text.
#[derive(Debug, PartialEq)]
pub struct Settings {
    pub bind_address: Option<String>,
    pub max_viewers: Option<String>,
    pub requests_per_second: Option<String>,
    pub concurrency: Option<String>,
    pub shutdown_seconds: Option<String>,
}

/// The digits of a numeral, which may start with a plus sign.
pub open spec fn numeral_digits(bytes: Seq<u8>) -> Seq<u8> {
    if bytes.len() > 0 && bytes[0] == 43 {
        bytes.skip(1)
    } else {
        bytes
    }
}

/// Whether bytes are the numeral of a number from 1 to a maximum.
pub open spec fn numeral_within(bytes: Seq<u8>, max: nat) -> bool {
    let digits = numeral_digits(bytes);
    &&& digits.len() > 0
    &&& all_digits(digits)
    &&& 1 <= digits_value(digits) <= max
}

/// What is said of a setting that is no number within its bounds.
pub open spec fn bounds_text(key: Seq<char>, max: nat) -> Seq<char> {
    key + " must be an integer from 1 to "@ + decimal(max)
}

/// Whether a number is what a setting says, or its default.
pub open spec fn setting_value(
    setting: Option<String>,
    default: nat,
    max: nat,
    number: nat,
) -> bool {
    match setting {
        Some(text) => {
            &&& numeral_within(encode_utf8(text@), max)
            &&& number == digits_value(numeral_digits(encode_utf8(text@)))
        },
        None => number == default,
    }
}

/// Whether a setting is out of bounds.
pub open spec fn setting_refused(setting: Option<String>, max: nat) -> bool {
    setting matches Some(text) && !numeral_within(encode_utf8(text@), max)
}

/// Reads a numeric setting.
fn positive(setting: &Option<String>, key: &str, default: usize, max: usize) -> (number: Result<
    usize,
    String,
>)
    ensures
        match number {
            Ok(number) => !setting_refused(*setting, max as nat) && setting_value(
                *setting,
                default as nat,
                max as nat,
                number as nat,
            ),
            Err(message) => setting_refused(*setting, max as nat) && message@ == bounds_text(
                key@,
                max as nat,
            ),
        },
{
    let number = match setting {
        Some(text) => {
            let bytes = text.as_str().as_bytes();
            let digits = if bytes.len() > 0 && bytes[0] == 43 {
                vstd::slice::slice_subrange(bytes, 1, bytes.len())
            } else {
                bytes
            };
            assert(digits@ =~= numeral_digits(encode_utf8(text@)));
            if digits.len() > 0 {
                parse_digits(digits)
            } else {
                None
            }
        },
        None => {
            return Ok(default);
        },
    };
    match number {
        Some(number) => if 1 <= number && number <= max as u64 {
            return Ok(number as usize);
        },
        None => {},
    }
    let mut message = key.to_owned();
    message.append(" must be an integer from 1 to ");
    append_decimal(&mut message, max as u64);
    Err(message)
}

/// The greatest accepted number of viewers.
pub const MAX_VIEWERS_LIMIT: usize = 100_000;

/// The greatest accepted number of requests in a second.
pub const REQUESTS_PER_SECOND_LIMIT: usize = 10_000;

/// The greatest accepted number of concurrent requests.
pub const REQUEST_CONCURRENCY_LIMIT: usize = 1024;

/// The longest accepted time for a shutdown, in seconds.
pub const SHUTDOWN_SECONDS_LIMIT: usize = 120;

/// Whether a bind address was given that is none, or that has no port of its own.
pub open spec fn bind_refused(settings: Settings, bind_port: Option<u16>) -> bool {
    settings.bind_address is Some && (bind_port is None || bind_port == Some(0u16))
}

/// What is wrong with settings: the first that is refused, in a fixed order.
pub open spec fn settings_fault(settings: Settings, bind_port: Option<u16>) -> Option<Seq<char>> {
    if bind_refused(settings, bind_port) {
        Some(
            "BIND_ADDRESS must be an IP address and nonzero port, for example 0.0.0.0:3000"@,
        )
    } else if setting_refused(settings.max_viewers, MAX_VIEWERS_LIMIT as nat) {
        Some(bounds_text("MAX_VIEWERS"@, MAX_VIEWERS_LIMIT as nat))
    } else if setting_refused(settings.requests_per_second, REQUESTS_PER_SECOND_LIMIT as nat) {
        Some(bounds_text("REQUESTS_PER_SECOND"@, REQUESTS_PER_SECOND_LIMIT as nat))
    } else if setting_refused(settings.concurrency, REQUEST_CONCURRENCY_LIMIT as nat) {
        Some(bounds_text("REQUEST_CONCURRENCY"@, REQUEST_CONCURRENCY_LIMIT as nat))
    } else if setting_refused(settings.shutdown_seconds, SHUTDOWN_SECONDS_LIMIT as nat) {
        Some(bounds_text("SHUTDOWN_SECONDS"@, SHUTDOWN_SECONDS_LIMIT as nat))
    } else {
        None
    }
}

impl RuntimeConfig {
    /// Whether every setting is within its bounds.
    pub open spec fn wf(self) -> bool {
        &&& 1 <= self.max_viewers <= MAX_VIEWERS_LIMIT
        &&& 1 <= self.requests_per_second <= REQUESTS_PER_SECOND_LIMIT
        &&& 1 <= self.concurrency <= REQUEST_CONCURRENCY_LIMIT
        &&& 1 <= self.shutdown_seconds <= SHUTDOWN_SECONDS_LIMIT
    }

    /// Whether a configuration is what settings say.
    pub open spec fn follows(self, settings: Settings) -> bool {
        &&& self.bind_address@ == match settings.bind_address {
            Some(address) => address@,
            None => "0.0.0.0:3000"@,
        }
        &&& setting_value(
            settings.max_viewers,
            1000,
            MAX_VIEWERS_LIMIT as nat,
            self.max_viewers as nat,
        )
        &&& setting_value(
            settings.requests_per_second,
            100,
            REQUESTS_PER_SECOND_LIMIT as nat,
            self.requests_per_second as nat,
        )
        &&& setting_value(
            settings.concurrency,
            64,
            REQUEST_CONCURRENCY_LIMIT as nat,
            self.concurrency as nat,
        )
        &&& setting_value(
            settings.shutdown_seconds,
            25,
            SHUTDOWN_SECONDS_LIMIT as nat,
            self.shutdown_seconds as nat,
        )
    }

    /// Reads the settings of a process, given the port of the bind address where that is an
    /// address.
    pub fn parse(settings: &Settings, bind_port: Option<u16>) -> (config: Result<
        RuntimeConfig,
        String,
    >)
        ensures
            match config {
                Ok(config) => {
                    &&& settings_fault(*settings, bind_port) is None
                    &&& config.follows(*settings)
                    &&& config.wf()
                },
                Err(message) => settings_fault(*settings, bind_port) == Some(message@),
            },
    {
        let defaults = RuntimeConfig::default();
        let bound = match bind_port {
            Some(port) => port != 0,
            None => false,
        };
        if settings.bind_address.is_some() && !bound {
            return Err(
                "BIND_ADDRESS must be an IP address and nonzero port, for example 0.0.0.0:3000".to_owned(),
            );
        }
        let bind_address = match &settings.bind_address {
            Some(address) => address.clone(),
            None => defaults.bind_address,
        };
        let max_viewers = match positive(
            &settings.max_viewers,
            "MAX_VIEWERS",
            defaults.max_viewers,
            MAX_VIEWERS_LIMIT,
        ) {
            Ok(number) => number,
            Err(message) => {
                return Err(message);
            },
        };
        let requests_per_second = match positive(
            &settings.requests_per_second,
            "REQUESTS_PER_SECOND",
            defaults.requests_per_second,
            REQUESTS_PER_SECOND_LIMIT,
        ) {
            Ok(number) => number,
            Err(message) => {
                return Err(message);
            },
        };
        let concurrency = match positive(
            &settings.concurrency,
            "REQUEST_CONCURRENCY",
            defaults.concurrency,
            REQUEST_CONCURRENCY_LIMIT,
        ) {
            Ok(number) => number,
            Err(message) => {
                return Err(message);
            },
        };
        let shutdown_seconds = match positive(
            &settings.shutdown_seconds,
            "SHUTDOWN_SECONDS",
            defaults.shutdown_seconds as usize,
            SHUTDOWN_SECONDS_LIMIT,
        ) {
            Ok(number) => number,
            Err(message) => {
                return Err(message);
            },
        };
        Ok(
            RuntimeConfig {
                bind_address,
                max_viewers,
                requests_per_second,
                concurrency,
                shutdown_seconds: shutdown_seconds as u64,
            },
        )
    }
}

/// A numeric setting is accepted where it is a numeral of ASCII digits, which may start with one
/// plus sign, of a number from 1 to its maximum; that number then holds.
pub proof fn law_numeric_settings_are_numerals_within_bounds(
    text: String,
    digits: Seq<u8>,
    default: nat,
    max: nat,
    number: nat,
)
    requires
        encode_utf8(text@) == seq![43u8] + digits || (encode_utf8(text@) == digits && (digits.len()
            > 0 ==> digits[0] != 43)),
    ensures
        setting_refused(Some(text), max) <==> !(digits.len() > 0 && (forall|i: int|
            0 <= i < digits.len() ==> 48 <= #[trigger] digits[i] <= 57) && 1 <= digits_value(digits)
            <= max),
        setting_value(Some(text), default, max, number) <==> !setting_refused(Some(text), max)
            && number == digits_value(digits),
{
    let bytes = encode_utf8(text@);
    if bytes == seq![43u8] + digits {
        assert(bytes.skip(1) =~= digits);
    }
    assert(numeral_digits(bytes) == digits);
    law_digits_are_ascii_digits(digits);
}

/// Where nothing is set, nothing is refused, and the default holds.
pub proof fn law_defaults_hold_where_nothing_is_set(default: nat, max: nat, number: nat)
    ensures
        !setting_refused(None, max),
        setting_value(None, default, max, number) <==> number == default,
{
}

/// The numeral of every number within bounds is accepted as that number.
pub proof fn law_numerals_within_bounds_are_accepted(text: String, number: nat, max: nat)
    requires
        text@ == decimal(number),
        1 <= number <= max,
    ensures
        !setting_refused(Some(text), max),
        setting_value(Some(text), 0, max, number),
{
    law_numerals_read_back(number);
    let bytes = char_bytes(decimal(number));
    assert(is_ascii_chars(text@)) by {
        assert forall|i: int| 0 <= i < text@.len() implies '\0' <= #[trigger] text@[i]
            <= '\u{7f}' by {
            assert('0' <= decimal(number)[i] <= '9');
        }
    }
    is_ascii_chars_encode_utf8(text@);
    assert(encode_utf8(text@) =~= bytes) by {
        assert forall|i: int| 0 <= i < bytes.len() implies encode_utf8(text@)[i] == bytes[i] by {
            assert(text@[i] as u8 == encode_utf8(text@)[i]);
        }
    }
    assert(digit_byte(bytes[0]));
    assert(numeral_digits(bytes) == bytes);
}

/// Settings are refused for the first of them that is at fault, which is named: the bind address
/// where it is none or has port 0, then the numbers, each with its own bounds.
pub proof fn law_the_first_refused_setting_is_named(settings: Settings, bind_port: Option<u16>)
    ensures
        ({
            let address = settings.bind_address is Some && (bind_port is None || bind_port->0 == 0);
            let viewers = setting_refused(settings.max_viewers, 100_000);
            let rate = setting_refused(settings.requests_per_second, 10_000);
            let concurrency = setting_refused(settings.concurrency, 1024);
            let shutdown = setting_refused(settings.shutdown_seconds, 120);
            let fault = settings_fault(settings, bind_port);
            &&& fault is None <==> !address && !viewers && !rate && !concurrency && !shutdown
            &&& address ==> fault == Some(
                "BIND_ADDRESS must be an IP address and nonzero port, for example 0.0.0.0:3000"@,
            )
            &&& !address && viewers ==> fault == Some(bounds_text("MAX_VIEWERS"@, 100_000))
            &&& !address && !viewers && rate ==> fault == Some(
                bounds_text("REQUESTS_PER_SECOND"@, 10_000),
            )
            &&& !address && !viewers && !rate && concurrency ==> fault == Some(
                bounds_text("REQUEST_CONCURRENCY"@, 1024),
            )
            &&& !address && !viewers && !rate && !concurrency && shutdown ==> fault == Some(
                bounds_text("SHUTDOWN_SECONDS"@, 120),
            )
        }),
{
}

/// What is said of a number out of bounds names the setting and its maximum.
pub proof fn law_bounds_are_told(key: Seq<char>, max: nat)
    ensures
        bounds_text(key, max) == key + " must be an integer from 1 to "@ + decimal(max),
{
}

/// A configuration holds the given settings, each in its own place, and the documented defaults
/// where none are given.
pub proof fn law_configurations_hold_their_settings(config: RuntimeConfig, settings: Settings)
    requires
        config.follows(settings),
    ensures
        settings.bind_address is None ==> config.bind_address@ == "0.0.0.0:3000"@,
        settings.bind_address matches Some(address) ==> config.bind_address@ == address@,
        setting_value(settings.max_viewers, 1000, 100_000, config.max_viewers as nat),
        setting_value(settings.requests_per_second, 100, 10_000, config.requests_per_second as nat),
        setting_value(settings.concurrency, 64, 1024, config.concurrency as nat),
        setting_value(settings.shutdown_seconds, 25, 120, config.shutdown_seconds as nat),
{
}

} // verus!
