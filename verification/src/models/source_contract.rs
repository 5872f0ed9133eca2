//! Source observations and the price reply.
//!
//! Stored records hold observations only. Reply types add the freshness that is computed when
//! a request is served; the time of a snapshot is not the age of a quote.
use crate::price::Price;
use crate::sources::{source_name, UpstreamSource};
use crate::text::same_text;
use vstd::prelude::*;

verus! {

/// What a provider's number means.
#[derive(Clone, Copy, Debug, PartialEq, Eq, Structural)]
pub enum QuoteKind {
    Aggregate,
    Spot,
    LastTrade,
    Bid,
    Unknown,
}

/// The last validated price of one provider.
#[derive(Debug, PartialEq)]
pub struct StoredQuote {
    pub source: String,
    pub price_usd: Price,
    pub last_success_at_unix: Option<i64>,
    pub quote_kind: QuoteKind,
}

/// What a stored quote holds.
pub struct QuoteModel {
    pub source: Seq<char>,
    pub price_usd: Price,
    pub last_success_at_unix: Option<i64>,
    pub quote_kind: QuoteKind,
}

impl View for StoredQuote {
    type V = QuoteModel;

    open spec fn view(&self) -> QuoteModel {
        QuoteModel {
            source: self.source@,
            price_usd: self.price_usd,
            last_success_at_unix: self.last_success_at_unix,
            quote_kind: self.quote_kind,
        }
    }
}

impl Clone for StoredQuote {
    fn clone(&self) -> (copy: Self)
        ensures
            copy@ == self@,
    {
        StoredQuote {
            source: self.source.clone(),
            price_usd: self.price_usd,
            last_success_at_unix: self.last_success_at_unix,
            quote_kind: self.quote_kind,
        }
    }
}

/// What each quote of a list holds.
pub open spec fn quote_models(quotes: Seq<StoredQuote>) -> Seq<QuoteModel> {
    Seq::new(quotes.len(), |i: int| quotes[i]@)
}

/// The characters of each text of a list.
pub open spec fn text_models(texts: Seq<String>) -> Seq<Seq<char>> {
    Seq::new(texts.len(), |i: int| texts[i]@)
}

/// The class of a provider failure.
#[derive(Clone, Copy, Debug, PartialEq, Eq, Structural)]
pub enum ErrorCategory {
    Timeout,
    Transport,
    Http,
    InvalidPayload,
    InvalidPrice,
}

/// A failure as clients may see it.
#[derive(Debug, PartialEq)]
pub struct SourceError {
    pub category: ErrorCategory,
    /// Safe for clients: never a chain of causes and never a database path.
    pub message: String,
    pub http_status: Option<u16>,
}

/// What a failure holds.
pub struct SourceErrorModel {
    pub category: ErrorCategory,
    pub message: Seq<char>,
    pub http_status: Option<u16>,
}

impl View for SourceError {
    type V = SourceErrorModel;

    open spec fn view(&self) -> SourceErrorModel {
        SourceErrorModel {
            category: self.category,
            message: self.message@,
            http_status: self.http_status,
        }
    }
}

/// The outcome of a provider's latest attempt.
#[derive(Debug, PartialEq)]
pub enum LastAttempt {
    /// No trustworthy record; not a claim that the provider was never tried.
    Unknown,
    Success { attempted_at_unix: i64 },
    Failure { attempted_at_unix: i64, error: SourceError },
}

/// What an outcome holds.
pub enum AttemptModel {
    Unknown,
    Success(i64),
    Failure(i64, SourceErrorModel),
}

impl View for LastAttempt {
    type V = AttemptModel;

    open spec fn view(&self) -> AttemptModel {
        match self {
            LastAttempt::Unknown => AttemptModel::Unknown,
            LastAttempt::Success { attempted_at_unix } => AttemptModel::Success(*attempted_at_unix),
            LastAttempt::Failure { attempted_at_unix, error } => AttemptModel::Failure(
                *attempted_at_unix,
                error@,
            ),
        }
    }
}

/// The latest outcome of one provider.
#[derive(Debug, PartialEq)]
pub struct ProviderHealth {
    pub source: String,
    pub last_attempt: LastAttempt,
}

/// What a health record holds.
pub struct HealthModel {
    pub source: Seq<char>,
    pub last_attempt: AttemptModel,
}

impl View for ProviderHealth {
    type V = HealthModel;

    open spec fn view(&self) -> HealthModel {
        HealthModel { source: self.source@, last_attempt: self.last_attempt@ }
    }
}

/// What each health record of a list holds.
pub open spec fn health_models(health: Seq<ProviderHealth>) -> Seq<HealthModel> {
    Seq::new(health.len(), |i: int| health[i]@)
}

/// How an observation stands at the time of a reply.
#[derive(Clone, Copy, Debug, PartialEq, Eq, Structural)]
pub enum SourceFreshness {
    Fresh,
    Stale,
    Unknown,
    Future,
}

/// A quote with its age at the time of a reply.
#[derive(Debug, PartialEq)]
pub struct SourceResponse {
    pub quote: StoredQuote,
    pub age_seconds: Option<i64>,
    pub freshness: SourceFreshness,
}

/// What a reply row holds.
pub struct SourceModel {
    pub quote: QuoteModel,
    pub age_seconds: Option<i64>,
    pub freshness: SourceFreshness,
}

impl View for SourceResponse {
    type V = SourceModel;

    open spec fn view(&self) -> SourceModel {
        SourceModel {
            quote: self.quote@,
            age_seconds: self.age_seconds,
            freshness: self.freshness,
        }
    }
}

/// What each reply row of a list holds.
pub open spec fn source_models(sources: Seq<SourceResponse>) -> Seq<SourceModel> {
    Seq::new(sources.len(), |i: int| sources[i]@)
}

/// How far a reply can be relied upon.
#[derive(Clone, Copy, Debug, PartialEq, Eq, Structural)]
pub enum PriceStatus {
    Live,
    Degraded,
    Stale,
    Unavailable,
}

/// Which providers contribute to the aggregates of a reply.
#[derive(Debug, PartialEq)]
pub struct AggregateCoverage {
    pub configured_source_count: usize,
    pub fresh_source_count: usize,
    pub contributing_sources: Vec<String>,
}

/// The reply to a price request.
#[derive(Debug, PartialEq)]
pub struct PriceResponse {
    pub symbol: &'static str,
    pub currency: &'static str,
    /// Rows with a quote only.
    pub sources: Vec<SourceResponse>,
    /// Every configured provider, with or without a quote.
    pub provider_health: Vec<ProviderHealth>,
    /// The prices that the average is taken over, in configured order.
    pub contributing_prices: Vec<Price>,
    /// The lowest and the highest contributing price: the spread is their difference.
    pub price_range: Option<(Price, Price)>,
    pub status: PriceStatus,
    pub coverage: AggregateCoverage,
    pub source_max_age_seconds: u64,
    pub evaluated_at_unix: i64,
    /// When the snapshot was saved; says nothing of the freshness of its quotes.
    pub fetched_at_unix: i64,
    pub fetched_age_seconds: Option<i64>,
    pub warnings: Vec<String>,
    pub refresh_succeeded: bool,
    pub stale: bool,
    pub active_viewers: usize,
    pub refresh_skipped_reason: Option<String>,
}

/// The wire text of a quote kind.
pub open spec fn quote_kind_text(kind: QuoteKind) -> Seq<char> {
    match kind {
        QuoteKind::Aggregate => "aggregate"@,
        QuoteKind::Spot => "spot"@,
        QuoteKind::LastTrade => "last_trade"@,
        QuoteKind::Bid => "bid"@,
        QuoteKind::Unknown => "unknown"@,
    }
}

/// The kind that a wire text stands for.
pub open spec fn kind_for_text(text: Seq<char>) -> Option<QuoteKind> {
    if text == "aggregate"@ {
        Some(QuoteKind::Aggregate)
    } else if text == "spot"@ {
        Some(QuoteKind::Spot)
    } else if text == "last_trade"@ {
        Some(QuoteKind::LastTrade)
    } else if text == "bid"@ {
        Some(QuoteKind::Bid)
    } else if text == "unknown"@ {
        Some(QuoteKind::Unknown)
    } else {
        None
    }
}

/// The wire texts of the quote kinds.
pub open spec fn quote_kind_words() -> Seq<&'static str> {
    seq!["aggregate", "spot", "last_trade", "bid", "unknown"]
}

/// What the number of a configured provider means.
pub open spec fn kind_of_source(source: UpstreamSource) -> QuoteKind {
    match source {
        UpstreamSource::CoinGecko => QuoteKind::Aggregate,
        UpstreamSource::Coinbase => QuoteKind::Spot,
        UpstreamSource::Kraken => QuoteKind::LastTrade,
        UpstreamSource::Gemini => QuoteKind::Bid,
    }
}

/// What a stored quote under a provider name means: unknown unless the provider is configured.
pub open spec fn kind_of_name(name: Seq<char>) -> QuoteKind {
    if name == source_name(UpstreamSource::CoinGecko) {
        QuoteKind::Aggregate
    } else if name == source_name(UpstreamSource::Coinbase) {
        QuoteKind::Spot
    } else if name == source_name(UpstreamSource::Kraken) {
        QuoteKind::LastTrade
    } else if name == source_name(UpstreamSource::Gemini) {
        QuoteKind::Bid
    } else {
        QuoteKind::Unknown
    }
}

impl QuoteKind {
    /// The wire texts of the kinds.
    pub(crate) fn words() -> (words: &'static [&'static str])
        ensures
            words@ == quote_kind_words(),
    {
        &["aggregate", "spot", "last_trade", "bid", "unknown"]
    }

    /// The wire text of the kind.
    pub fn text(self) -> (text: &'static str)
        ensures
            text@ == quote_kind_text(self),
    {
        match self {
            QuoteKind::Aggregate => "aggregate",
            QuoteKind::Spot => "spot",
            QuoteKind::LastTrade => "last_trade",
            QuoteKind::Bid => "bid",
            QuoteKind::Unknown => "unknown",
        }
    }

    /// The kind that a wire text stands for.
    pub fn from_text(text: &str) -> (kind: Option<QuoteKind>)
        ensures
            kind == kind_for_text(text@),
    {
        if same_text(text, "aggregate") {
            Some(QuoteKind::Aggregate)
        } else if same_text(text, "spot") {
            Some(QuoteKind::Spot)
        } else if same_text(text, "last_trade") {
            Some(QuoteKind::LastTrade)
        } else if same_text(text, "bid") {
            Some(QuoteKind::Bid)
        } else if same_text(text, "unknown") {
            Some(QuoteKind::Unknown)
        } else {
            None
        }
    }

    /// What the number of a configured provider means.
    pub fn of_source(source: UpstreamSource) -> (kind: QuoteKind)
        ensures
            kind == kind_of_source(source),
    {
        match source {
            UpstreamSource::CoinGecko => QuoteKind::Aggregate,
            UpstreamSource::Coinbase => QuoteKind::Spot,
            UpstreamSource::Kraken => QuoteKind::LastTrade,
            UpstreamSource::Gemini => QuoteKind::Bid,
        }
    }

    /// What a stored quote under a provider name means: unknown unless the provider is
    /// configured.
    pub fn of_name(name: &str) -> (kind: QuoteKind)
        ensures
            kind == kind_of_name(name@),
    {
        match UpstreamSource::named(name) {
            Some(source) => {
                proof {
                    crate::sources::law_names_are_distinct(source, UpstreamSource::CoinGecko);
                    crate::sources::law_names_are_distinct(source, UpstreamSource::Coinbase);
                    crate::sources::law_names_are_distinct(source, UpstreamSource::Kraken);
                    crate::sources::law_names_are_distinct(source, UpstreamSource::Gemini);
                }
                QuoteKind::of_source(source)
            },
            None => {
                assert(source_name(UpstreamSource::CoinGecko) != name@);
                assert(source_name(UpstreamSource::Coinbase) != name@);
                assert(source_name(UpstreamSource::Kraken) != name@);
                assert(source_name(UpstreamSource::Gemini) != name@);
                QuoteKind::Unknown
            },
        }
    }
}

/// No two kinds share a wire text, so each kind can be read back from its text.
pub proof fn law_quote_kind_texts_are_distinct(a: QuoteKind, b: QuoteKind)
    ensures
        quote_kind_text(a) == quote_kind_text(b) <==> a == b,
        kind_for_text(quote_kind_text(a)) == Some(a),
{
    reveal_strlit("aggregate");
    reveal_strlit("spot");
    reveal_strlit("last_trade");
    reveal_strlit("bid");
    reveal_strlit("unknown");
    assert(quote_kind_text(QuoteKind::Aggregate).len() == 9);
    assert(quote_kind_text(QuoteKind::Spot).len() == 4);
    assert(quote_kind_text(QuoteKind::LastTrade).len() == 10);
    assert(quote_kind_text(QuoteKind::Bid).len() == 3);
    assert(quote_kind_text(QuoteKind::Unknown).len() == 7);
}

/// The wire text of an error category.
pub open spec fn category_text(category: ErrorCategory) -> Seq<char> {
    match category {
        ErrorCategory::Timeout => "timeout"@,
        ErrorCategory::Transport => "transport"@,
        ErrorCategory::Http => "http"@,
        ErrorCategory::InvalidPayload => "invalid_payload"@,
        ErrorCategory::InvalidPrice => "invalid_price"@,
    }
}

/// The category that a wire text stands for.
pub open spec fn category_for_text(text: Seq<char>) -> Option<ErrorCategory> {
    if text == "timeout"@ {
        Some(ErrorCategory::Timeout)
    } else if text == "transport"@ {
        Some(ErrorCategory::Transport)
    } else if text == "http"@ {
        Some(ErrorCategory::Http)
    } else if text == "invalid_payload"@ {
        Some(ErrorCategory::InvalidPayload)
    } else if text == "invalid_price"@ {
        Some(ErrorCategory::InvalidPrice)
    } else {
        None
    }
}

/// The wire texts of the error categories.
pub open spec fn category_words() -> Seq<&'static str> {
    seq!["timeout", "transport", "http", "invalid_payload", "invalid_price"]
}

impl ErrorCategory {
    /// The wire texts of the categories.
    pub(crate) fn words() -> (words: &'static [&'static str])
        ensures
            words@ == category_words(),
    {
        &["timeout", "transport", "http", "invalid_payload", "invalid_price"]
    }

    /// The wire text of the category.
    pub fn text(self) -> (text: &'static str)
        ensures
            text@ == category_text(self),
    {
        match self {
            ErrorCategory::Timeout => "timeout",
            ErrorCategory::Transport => "transport",
            ErrorCategory::Http => "http",
            ErrorCategory::InvalidPayload => "invalid_payload",
            ErrorCategory::InvalidPrice => "invalid_price",
        }
    }

    /// The category that a wire text stands for.
    pub fn from_text(text: &str) -> (category: Option<ErrorCategory>)
        ensures
            category == category_for_text(text@),
    {
        if same_text(text, "timeout") {
            Some(ErrorCategory::Timeout)
        } else if same_text(text, "transport") {
            Some(ErrorCategory::Transport)
        } else if same_text(text, "http") {
            Some(ErrorCategory::Http)
        } else if same_text(text, "invalid_payload") {
            Some(ErrorCategory::InvalidPayload)
        } else if same_text(text, "invalid_price") {
            Some(ErrorCategory::InvalidPrice)
        } else {
            None
        }
    }
}

/// No two categories share a wire text, so each category can be read back from its text.
pub proof fn law_category_texts_are_distinct(a: ErrorCategory, b: ErrorCategory)
    ensures
        category_text(a) == category_text(b) <==> a == b,
        category_for_text(category_text(a)) == Some(a),
{
    reveal_strlit("timeout");
    reveal_strlit("transport");
    reveal_strlit("http");
    reveal_strlit("invalid_payload");
    reveal_strlit("invalid_price");
    assert(category_text(ErrorCategory::Timeout).len() == 7);
    assert(category_text(ErrorCategory::Transport).len() == 9);
    assert(category_text(ErrorCategory::Http).len() == 4);
    assert(category_text(ErrorCategory::InvalidPayload).len() == 15);
    assert(category_text(ErrorCategory::InvalidPrice).len() == 13);
}

/// The wire text of a freshness.
pub open spec fn freshness_text(freshness: SourceFreshness) -> Seq<char> {
    match freshness {
        SourceFreshness::Fresh => "fresh"@,
        SourceFreshness::Stale => "stale"@,
        SourceFreshness::Unknown => "unknown"@,
        SourceFreshness::Future => "future"@,
    }
}

impl SourceFreshness {
    /// The wire text of the freshness.
    pub fn text(self) -> (text: &'static str)
        ensures
            text@ == freshness_text(self),
    {
        match self {
            SourceFreshness::Fresh => "fresh",
            SourceFreshness::Stale => "stale",
            SourceFreshness::Unknown => "unknown",
            SourceFreshness::Future => "future",
        }
    }
}

/// The wire text of a status.
pub open spec fn status_text(status: PriceStatus) -> Seq<char> {
    match status {
        PriceStatus::Live => "LIVE"@,
        PriceStatus::Degraded => "DEGRADED"@,
        PriceStatus::Stale => "STALE"@,
        PriceStatus::Unavailable => "UNAVAILABLE"@,
    }
}

impl PriceStatus {
    /// The wire text of the status.
    pub fn text(self) -> (text: &'static str)
        ensures
            text@ == status_text(self),
    {
        match self {
            PriceStatus::Live => "LIVE",
            PriceStatus::Degraded => "DEGRADED",
            PriceStatus::Stale => "STALE",
            PriceStatus::Unavailable => "UNAVAILABLE",
        }
    }
}

/// A text stands for a kind where it is the kind's wire text, and for none else.
pub proof fn law_kinds_are_read_from_their_texts(text: Seq<char>, kind: QuoteKind)
    ensures
        kind_for_text(text) == Some(kind) <==> text == quote_kind_text(kind),
{
    law_quote_kind_texts_are_distinct(kind, QuoteKind::Aggregate);
    law_quote_kind_texts_are_distinct(kind, QuoteKind::Spot);
    law_quote_kind_texts_are_distinct(kind, QuoteKind::LastTrade);
    law_quote_kind_texts_are_distinct(kind, QuoteKind::Bid);
    law_quote_kind_texts_are_distinct(kind, QuoteKind::Unknown);
}

/// A text stands for a category where it is the category's wire text, and for none else.
pub proof fn law_categories_are_read_from_their_texts(text: Seq<char>, category: ErrorCategory)
    ensures
        category_for_text(text) == Some(category) <==> text == category_text(category),
{
    law_category_texts_are_distinct(category, ErrorCategory::Timeout);
    law_category_texts_are_distinct(category, ErrorCategory::Transport);
    law_category_texts_are_distinct(category, ErrorCategory::Http);
    law_category_texts_are_distinct(category, ErrorCategory::InvalidPayload);
    law_category_texts_are_distinct(category, ErrorCategory::InvalidPrice);
}

/// A stored name of a configured provider has the kind of its provider; any other name has the
/// unknown kind.
pub proof fn law_names_have_the_kind_of_their_provider(name: Seq<char>, source: UpstreamSource)
    ensures
        kind_of_name(source_name(source)) == kind_of_source(source),
        (forall|other: UpstreamSource| #[trigger] source_name(other) != name) ==> kind_of_name(name)
            == QuoteKind::Unknown,
{
    crate::sources::law_names_are_distinct(source, UpstreamSource::CoinGecko);
    crate::sources::law_names_are_distinct(source, UpstreamSource::Coinbase);
    crate::sources::law_names_are_distinct(source, UpstreamSource::Kraken);
    crate::sources::law_names_are_distinct(source, UpstreamSource::Gemini);
}

/// What the records of a list hold is what each record holds, field by field.
pub proof fn law_lists_hold_their_records(
    quotes: Seq<StoredQuote>,
    texts: Seq<String>,
    health: Seq<ProviderHealth>,
    rows: Seq<SourceResponse>,
    i: int,
)
    ensures
        quote_models(quotes).len() == quotes.len(),
        0 <= i < quotes.len() ==> {
            let quote = quote_models(quotes)[i];
            &&& quote.source == quotes[i].source@
            &&& quote.price_usd == quotes[i].price_usd
            &&& quote.last_success_at_unix == quotes[i].last_success_at_unix
            &&& quote.quote_kind == quotes[i].quote_kind
        },
        text_models(texts).len() == texts.len(),
        0 <= i < texts.len() ==> text_models(texts)[i] == texts[i]@,
        health_models(health).len() == health.len(),
        0 <= i < health.len() ==> {
            let record = health_models(health)[i];
            &&& record.source == health[i].source@
            &&& match health[i].last_attempt {
                LastAttempt::Unknown => record.last_attempt is Unknown,
                LastAttempt::Success { attempted_at_unix } => record.last_attempt
                    == AttemptModel::Success(attempted_at_unix),
                LastAttempt::Failure { attempted_at_unix, error } => {
                    &&& record.last_attempt matches AttemptModel::Failure(time, failure)
                    &&& time == attempted_at_unix
                    &&& failure.category == error.category
                    &&& failure.message == error.message@
                    &&& failure.http_status == error.http_status
                },
            }
        },
        source_models(rows).len() == rows.len(),
        0 <= i < rows.len() ==> {
            let row = source_models(rows)[i];
            &&& row.quote == rows[i].quote@
            &&& row.age_seconds == rows[i].age_seconds
            &&& row.freshness == rows[i].freshness
        },
{
}

} // verus!
