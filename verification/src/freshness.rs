//! Freshness, coverage and status of stored quotes at the time of a reply.
use crate::config::SOURCE_MAX_AGE_SECONDS;
use crate::models::source_contract::{
    health_models, quote_models, source_models, text_models, AggregateCoverage, HealthModel,
    LastAttempt, PriceStatus, ProviderHealth, QuoteModel, SourceFreshness,
    SourceModel, SourceResponse, StoredQuote,
};
use crate::price::Price;
use crate::sources::{
    all_sources, configured, law_names_are_distinct, source_name, UpstreamSource, SOURCE_COUNT,
};
use crate::text::same_text;
use vstd::prelude::*;

verus! {

/// The age of an observation in seconds, where it is known, representable and not negative.
pub open spec fn age_at(observed: Option<i64>, now: i64) -> Option<i64> {
    match observed {
        Some(time) => if 0 <= now - time <= i64::MAX {
            Some((now - time) as i64)
        } else {
            None
        },
        None => None,
    }
}

/// How a quote stands at a time.
pub open spec fn freshness_at(quote: QuoteModel, now: i64) -> SourceFreshness {
    if !configured(quote.source) {
        SourceFreshness::Unknown
    } else if quote.last_success_at_unix matches Some(time) && time > now {
        SourceFreshness::Future
    } else {
        match age_at(quote.last_success_at_unix, now) {
            Some(age) => if age < SOURCE_MAX_AGE_SECONDS {
                SourceFreshness::Fresh
            } else {
                SourceFreshness::Stale
            },
            None => SourceFreshness::Unknown,
        }
    }
}

/// The reply row of a quote.
pub open spec fn row_at(quote: QuoteModel, now: i64) -> SourceModel {
    SourceModel {
        quote,
        age_seconds: age_at(quote.last_success_at_unix, now),
        freshness: freshness_at(quote, now),
    }
}

/// The reply rows: one for each quote with a usable price, in the order of the quotes.
pub open spec fn rows_at(quotes: Seq<QuoteModel>, now: i64) -> Seq<SourceModel>
    decreases quotes.len(),
{
    if quotes.len() == 0 {
        Seq::empty()
    } else {
        let before = rows_at(quotes.drop_last(), now);
        if quotes.last().price_usd.usable() {
            before.push(row_at(quotes.last(), now))
        } else {
            before
        }
    }
}

/// Whether a row may contribute for a provider: it is the provider's, dated and fresh.
pub open spec fn qualifies(row: SourceModel, source: UpstreamSource) -> bool {
    &&& row.quote.source == source_name(source)
    &&& row.quote.last_success_at_unix is Some
    &&& row.freshness == SourceFreshness::Fresh
}

/// The place of a provider's newest qualifying row, the last one among equally new ones.
pub open spec fn newest_row(rows: Seq<SourceModel>, source: UpstreamSource) -> Option<int>
    decreases rows.len(),
{
    if rows.len() == 0 {
        None
    } else {
        let before = newest_row(rows.drop_last(), source);
        let row = rows.last();
        if qualifies(row, source) && (before matches Some(i)
            ==> observed_at(rows[i]) <= observed_at(row)) {
            Some(rows.len() - 1)
        } else {
            before
        }
    }
}

/// The observation time of a row that has one.
pub open spec fn observed_at(row: SourceModel) -> int {
    row.quote.last_success_at_unix->0 as int
}

/// The contributing rows of the first providers: at most one each, in configured order.
pub open spec fn contributors(rows: Seq<SourceModel>, providers: nat) -> Seq<SourceModel>
    decreases providers,
{
    if providers == 0 {
        Seq::empty()
    } else {
        let before = contributors(rows, (providers - 1) as nat);
        match newest_row(rows, all_sources()[providers - 1]) {
            Some(i) => before.push(rows[i]),
            None => before,
        }
    }
}

/// Whether a provider's recorded health is a success.
pub open spec fn healthy(health: Seq<HealthModel>, source: UpstreamSource) -> bool {
    exists|i: int|
        0 <= i < health.len() && (#[trigger] health[i]).source == source_name(source)
            && health[i].last_attempt is Success
}

/// Whether every configured provider's recorded health is a success.
pub open spec fn all_healthy(health: Seq<HealthModel>) -> bool {
    forall|source: UpstreamSource| #[trigger] healthy(health, source)
}

/// The status of a reply.
pub open spec fn status_of(contributing: nat, all_healthy: bool, rows: nat) -> PriceStatus {
    if contributing == SOURCE_COUNT && all_healthy {
        PriceStatus::Live
    } else if contributing > 0 {
        PriceStatus::Degraded
    } else if rows > 0 {
        PriceStatus::Stale
    } else {
        PriceStatus::Unavailable
    }
}

/// The status of a reply with the given quotes and health at the given time.
pub open spec fn evaluated_status(
    quotes: Seq<QuoteModel>,
    health: Seq<HealthModel>,
    now: i64,
) -> PriceStatus {
    let rows = rows_at(quotes, now);
    status_of(contributors(rows, SOURCE_COUNT as nat).len(), all_healthy(health), rows.len())
}

/// The names of rows.
pub open spec fn row_names(rows: Seq<SourceModel>) -> Seq<Seq<char>> {
    Seq::new(rows.len(), |i: int| rows[i].quote.source)
}

/// The prices of rows.
pub open spec fn row_prices(rows: Seq<SourceModel>) -> Seq<Price> {
    Seq::new(rows.len(), |i: int| rows[i].quote.price_usd)
}

/// Whether two prices are the lowest and the highest of a list.
pub open spec fn spans(range: (Price, Price), prices: Seq<Price>) -> bool {
    &&& prices.contains(range.0)
    &&& prices.contains(range.1)
    &&& forall|i: int|
        0 <= i < prices.len() ==> range.0.bits <= (#[trigger] prices[i]).bits <= range.1.bits
}

/// What a reply says of the stored quotes.
#[derive(Debug, PartialEq)]
pub struct QuoteEvaluation {
    pub sources: Vec<SourceResponse>,
    /// The prices that the average is taken over, in configured order.
    pub contributing_prices: Vec<Price>,
    /// The lowest and the highest contributing price: the spread is their difference.
    pub price_range: Option<(Price, Price)>,
    pub status: PriceStatus,
    pub coverage: AggregateCoverage,
}

/// Whether an evaluation is that of the given quotes and health at the given time.
pub open spec fn evaluates(
    evaluation: QuoteEvaluation,
    quotes: Seq<QuoteModel>,
    health: Seq<HealthModel>,
    now: i64,
) -> bool {
    let rows = rows_at(quotes, now);
    let contributing = contributors(rows, SOURCE_COUNT as nat);
    &&& source_models(evaluation.sources@) == rows
    &&& evaluation.contributing_prices@ == row_prices(contributing)
    &&& match evaluation.price_range {
        Some(range) => spans(range, row_prices(contributing)),
        None => contributing.len() == 0,
    }
    &&& evaluation.status == evaluated_status(quotes, health, now)
    &&& evaluation.coverage.configured_source_count == SOURCE_COUNT
    &&& evaluation.coverage.fresh_source_count == contributing.len()
    &&& text_models(evaluation.coverage.contributing_sources@) == row_names(contributing)
}

/// Evaluates the stored quotes at a time.
///
/// Quotes without a usable price are left out. Each configured provider contributes its newest
/// fresh quote, at most one, in configured order.
pub fn evaluate_quotes(
    quotes: Vec<StoredQuote>,
    health: &[ProviderHealth],
    now: i64,
) -> (evaluation: QuoteEvaluation)
    ensures
        evaluates(evaluation, quote_models(quotes@), health_models(health@), now),
{
    let sources = evaluate_rows(&quotes, now);
    let ghost rows = rows_at(quote_models(quotes@), now);
    let mut contributing_prices: Vec<Price> = Vec::new();
    let mut contributing_sources: Vec<String> = Vec::new();
    let mut price_range: Option<(Price, Price)> = None;
    let mut place: usize = 0;
    assert(row_prices(contributors(rows, 0)) =~= Seq::<Price>::empty());
    while place < SOURCE_COUNT
        invariant
            place <= SOURCE_COUNT,
            source_models(sources@) == rows,
            contributing_prices@ == row_prices(contributors(rows, place as nat)),
            contributing_sources@.len() == contributors(rows, place as nat).len(),
            forall|i: int|
                0 <= i < contributing_sources@.len() ==> (#[trigger] contributing_sources@[i])@
                    == contributors(rows, place as nat)[i].quote.source,
            match price_range {
                Some(range) => spans(range, contributing_prices@),
                None => contributing_prices@.len() == 0,
            },
        decreases SOURCE_COUNT - place,
    {
        let source = UpstreamSource::at(place);
        let ghost before = contributors(rows, place as nat);
        match newest_source(&sources, source) {
            Some(i) => {
                let row = &sources[i];
                let price = row.quote.price_usd;
                assert(rows[i as int] == row@);
                let ghost prices_before = contributing_prices@;
                contributing_prices.push(price);
                contributing_sources.push(row.quote.source.clone());
                price_range = Some(widen(price_range, price, Ghost(prices_before)));
                proof {
                    let after = contributors(rows, (place + 1) as nat);
                    assert(after == before.push(rows[i as int]));
                    assert(row_prices(after) =~= row_prices(before).push(price));
                }
            },
            None => {
                assert(contributors(rows, (place + 1) as nat) == before);
            },
        }
        place += 1;
    }
    let ghost contributing = contributors(rows, SOURCE_COUNT as nat);
    let fresh_source_count = contributing_prices.len();
    let status = status_for(fresh_source_count, every_source_healthy(health), sources.len());
    assert(text_models(contributing_sources@) =~= row_names(contributing));
    assert(source_models(sources@).len() == sources@.len());
    QuoteEvaluation {
        sources,
        contributing_prices,
        price_range,
        status,
        coverage: AggregateCoverage {
            configured_source_count: SOURCE_COUNT,
            fresh_source_count,
            contributing_sources,
        },
    }
}

fn status_for(contributing: usize, all_healthy: bool, rows: usize) -> (status: PriceStatus)
    ensures
        status == status_of(contributing as nat, all_healthy, rows as nat),
{
    if contributing == SOURCE_COUNT && all_healthy {
        PriceStatus::Live
    } else if contributing > 0 {
        PriceStatus::Degraded
    } else if rows > 0 {
        PriceStatus::Stale
    } else {
        PriceStatus::Unavailable
    }
}

fn widen(
    range: Option<(Price, Price)>,
    price: Price,
    Ghost(prices): Ghost<Seq<Price>>,
) -> (wider: (Price, Price))
    requires
        match range {
            Some(range) => spans(range, prices),
            None => prices.len() == 0,
        },
    ensures
        spans(wider, prices.push(price)),
{
    let ghost after = prices.push(price);
    assert(after[prices.len() as int] == price);
    match range {
        Some((low, high)) => {
            proof {
                let i = choose|i: int| 0 <= i < prices.len() && prices[i] == low;
                assert(after[i] == low);
                let j = choose|j: int| 0 <= j < prices.len() && prices[j] == high;
                assert(after[j] == high);
                assert forall|k: int| 0 <= k < prices.len() implies (#[trigger] after[k])
                    == prices[k] by {}
            }
            let lower = if price.bits < low.bits {
                price
            } else {
                low
            };
            let higher = if price.bits > high.bits {
                price
            } else {
                high
            };
            (lower, higher)
        },
        None => (price, price),
    }
}

/// The reply rows of quotes.
fn evaluate_rows(quotes: &Vec<StoredQuote>, now: i64) -> (sources: Vec<SourceResponse>)
    ensures
        source_models(sources@) == rows_at(quote_models(quotes@), now),
{
    let ghost models = quote_models(quotes@);
    let mut sources: Vec<SourceResponse> = Vec::new();
    let mut i: usize = 0;
    assert(source_models(sources@) =~= rows_at(models.take(0), now));
    while i < quotes.len()
        invariant
            i <= quotes@.len(),
            models == quote_models(quotes@),
            source_models(sources@) == rows_at(models.take(i as int), now),
        decreases quotes@.len() - i,
    {
        let quote = &quotes[i];
        let ghost before = sources@;
        assert(models.take(i + 1).drop_last() =~= models.take(i as int));
        assert(models.take(i + 1).last() == quote@);
        if quote.price_usd.is_usable() {
            let row = evaluate_row(quote, now);
            sources.push(row);
            assert(source_models(sources@) =~= source_models(before).push(row@));
        }
        i += 1;
    }
    assert(models.take(i as int) =~= models);
    sources
}

/// The reply row of a quote.
fn evaluate_row(quote: &StoredQuote, now: i64) -> (row: SourceResponse)
    ensures
        row@ == row_at(quote@, now),
{
    let age_seconds = observation_age(quote.last_success_at_unix, now);
    let future = match quote.last_success_at_unix {
        Some(time) => time > now,
        None => false,
    };
    let freshness = if UpstreamSource::named(quote.source.as_str()).is_none() {
        SourceFreshness::Unknown
    } else if future {
        SourceFreshness::Future
    } else {
        match age_seconds {
            Some(age) => if age < SOURCE_MAX_AGE_SECONDS as i64 {
                SourceFreshness::Fresh
            } else {
                SourceFreshness::Stale
            },
            None => SourceFreshness::Unknown,
        }
    };
    SourceResponse { quote: quote.clone(), age_seconds, freshness }
}

/// The age of an observation, where it is known, representable and not negative.
pub fn observation_age(observed: Option<i64>, now: i64) -> (age: Option<i64>)
    ensures
        age == age_at(observed, now),
{
    match observed {
        Some(time) => match now.checked_sub(time) {
            Some(age) => if age >= 0 {
                Some(age)
            } else {
                None
            },
            None => None,
        },
        None => None,
    }
}

/// The place of a provider's newest fresh row.
fn newest_source(sources: &Vec<SourceResponse>, source: UpstreamSource) -> (place: Option<usize>)
    ensures
        match place {
            Some(i) => newest_row(source_models(sources@), source) == Some(i as int) && i
                < sources@.len(),
            None => newest_row(source_models(sources@), source) is None,
        },
{
    let ghost rows = source_models(sources@);
    let mut place: Option<usize> = None;
    let mut newest: i64 = 0;
    let mut i: usize = 0;
    while i < sources.len()
        invariant
            i <= sources@.len(),
            rows == source_models(sources@),
            match place {
                Some(p) => {
                    &&& newest_row(rows.take(i as int), source) == Some(p as int)
                    &&& p < i
                    &&& newest == observed_at(rows[p as int])
                },
                None => newest_row(rows.take(i as int), source) is None,
            },
        decreases sources@.len() - i,
    {
        let row = &sources[i];
        assert(rows.take(i + 1).drop_last() =~= rows.take(i as int));
        assert(rows.take(i + 1).last() == row@);
        let fresh = match row.freshness {
            SourceFreshness::Fresh => true,
            _ => false,
        };
        if fresh && same_text(row.quote.source.as_str(), source.name()) {
            if let Some(time) = row.quote.last_success_at_unix {
                if place.is_none() || newest <= time {
                    place = Some(i);
                    newest = time;
                }
            }
        }
        i += 1;
    }
    assert(rows.take(i as int) =~= rows);
    place
}

/// Whether every configured provider has a recorded success.
fn every_source_healthy(health: &[ProviderHealth]) -> (all: bool)
    ensures
        all == all_healthy(health_models(health@)),
{
    let ghost models = health_models(health@);
    let mut place: usize = 0;
    while place < SOURCE_COUNT
        invariant
            place <= SOURCE_COUNT,
            models == health_models(health@),
            forall|p: int| 0 <= p < place ==> healthy(models, #[trigger] all_sources()[p]),
        decreases SOURCE_COUNT - place,
    {
        let source = UpstreamSource::at(place);
        if !source_healthy(health, source) {
            return false;
        }
        place += 1;
    }
    proof {
        assert forall|source: UpstreamSource| #[trigger] healthy(models, source) by {
            assert(all_sources()[source.position() as int] == source);
        }
    }
    true
}

/// Whether a provider has a recorded success.
fn source_healthy(health: &[ProviderHealth], source: UpstreamSource) -> (ok: bool)
    ensures
        ok == healthy(health_models(health@), source),
{
    let ghost models = health_models(health@);
    let mut i: usize = 0;
    while i < health.len()
        invariant
            i <= health@.len(),
            models == health_models(health@),
            forall|j: int|
                0 <= j < i ==> !((#[trigger] models[j]).source == source_name(source)
                    && models[j].last_attempt is Success),
        decreases health@.len() - i,
    {
        let record = &health[i];
        assert(models[i as int] == record@);
        let success = match record.last_attempt {
            LastAttempt::Success { .. } => true,
            _ => false,
        };
        if success && same_text(record.source.as_str(), source.name()) {
            return true;
        }
        i += 1;
    }
    false
}

/// An observation of a configured provider is fresh from its own second on and stale from the
/// maximum age on; one ahead of the clock is neither.
pub proof fn law_age_decides_freshness(quote: QuoteModel, now: i64, time: i64)
    requires
        configured(quote.source),
        quote.last_success_at_unix == Some(time),
    ensures
        freshness_at(quote, now) == SourceFreshness::Fresh <==> 0 <= now - time
            < SOURCE_MAX_AGE_SECONDS,
        freshness_at(quote, now) == SourceFreshness::Stale <==> SOURCE_MAX_AGE_SECONDS <= now
            - time <= i64::MAX,
        freshness_at(quote, now) == SourceFreshness::Future <==> time > now,
{
}

/// A quote without an observation time, or of a provider that is not configured, is of unknown
/// freshness.
pub proof fn law_unestablished_quotes_are_unknown(quote: QuoteModel, now: i64)
    requires
        !configured(quote.source) || quote.last_success_at_unix is None,
    ensures
        freshness_at(quote, now) == SourceFreshness::Unknown,
{
}

/// Every quote with a usable price stays visible, whatever its freshness, and no other does.
pub proof fn law_usable_quotes_stay_visible(quotes: Seq<QuoteModel>, now: i64, row: SourceModel)
    ensures
        rows_at(quotes, now).contains(row) <==> exists|i: int|
            0 <= i < quotes.len() && (#[trigger] quotes[i]).price_usd.usable() && row == row_at(
                quotes[i],
                now,
            ),
    decreases quotes.len(),
{
    let rows = rows_at(quotes, now);
    if quotes.len() > 0 {
        let before = quotes.drop_last();
        law_usable_quotes_stay_visible(before, now, row);
        let earlier = rows_at(before, now);
        if rows.contains(row) {
            let i = choose|i: int| 0 <= i < rows.len() && rows[i] == row;
            if i < earlier.len() {
                assert(earlier[i] == row);
                let j = choose|j: int|
                    0 <= j < before.len() && (#[trigger] before[j]).price_usd.usable() && row
                        == row_at(before[j], now);
                assert(quotes[j] == before[j]);
            } else {
                assert(quotes[quotes.len() - 1] == quotes.last());
            }
        }
        if exists|j: int|
            0 <= j < quotes.len() && (#[trigger] quotes[j]).price_usd.usable() && row == row_at(
                quotes[j],
                now,
            ) {
            let j = choose|j: int|
                0 <= j < quotes.len() && (#[trigger] quotes[j]).price_usd.usable() && row
                    == row_at(quotes[j], now);
            if j < before.len() {
                assert(before[j] == quotes[j]);
                let i = choose|i: int| 0 <= i < earlier.len() && earlier[i] == row;
                assert(rows[i] == row);
            } else {
                assert(rows[rows.len() - 1] == row);
            }
        }
    }
}

/// The newest row of a provider: it qualifies, and no qualifying row of the provider is newer.
/// There is one where any row qualifies.
pub proof fn law_newest_observation_contributes(rows: Seq<SourceModel>, source: UpstreamSource)
    ensures
        newest_row(rows, source) matches Some(i) ==> 0 <= i < rows.len() && qualifies(
            rows[i],
            source,
        ),
        forall|j: int|
            0 <= j < rows.len() && qualifies(#[trigger] rows[j], source) ==> {
                &&& newest_row(rows, source) matches Some(i)
                &&& observed_at(rows[j]) <= observed_at(rows[i])
            },
    decreases rows.len(),
{
    if rows.len() > 0 {
        let before = rows.drop_last();
        law_newest_observation_contributes(before, source);
        assert forall|j: int| 0 <= j < rows.len() && qualifies(#[trigger] rows[j], source) implies {
            &&& newest_row(rows, source) matches Some(i)
            &&& observed_at(rows[j]) <= observed_at(rows[i])
        } by {
            if j < before.len() {
                assert(before[j] == rows[j]);
            }
        }
    }
}

/// The contributors: at most one for each of the first providers, in configured order.
proof fn lemma_contributors(rows: Seq<SourceModel>, providers: nat)
    requires
        providers <= SOURCE_COUNT,
    ensures
        contributors(rows, providers).len() <= providers,
        forall|i: int|
            0 <= i < contributors(rows, providers).len() ==> is_newest_of_some(
                rows,
                #[trigger] contributors(rows, providers)[i],
                providers,
            ),
        forall|source: UpstreamSource|
            source.position() < providers ==> ((#[trigger] newest_row(rows, source)) is Some <==> (
            exists|i: int|
                0 <= i < contributors(rows, providers).len() && qualifies(
                    #[trigger] contributors(rows, providers)[i],
                    source,
                ))),
        contributors(rows, providers).len() == providers <==> (forall|source: UpstreamSource|
            source.position() < providers ==> (#[trigger] newest_row(rows, source)) is Some),
        forall|i: int, j: int|
            0 <= i < j < contributors(rows, providers).len() ==> precedes(
                #[trigger] contributors(rows, providers)[i],
                #[trigger] contributors(rows, providers)[j],
            ),
    decreases providers,
{
    if providers > 0 {
        let fewer = (providers - 1) as nat;
        lemma_contributors(rows, fewer);
        let before = contributors(rows, fewer);
        let after = contributors(rows, providers);
        let newest = all_sources()[fewer as int];
        assert(newest.position() == fewer);
        law_newest_observation_contributes(rows, newest);
        assert forall|i: int| 0 <= i < after.len() implies is_newest_of_some(
            rows,
            #[trigger] after[i],
            providers,
        ) by {
            if i < before.len() {
                assert(after[i] == before[i]);
                let source = choose|source: UpstreamSource|
                    source.position() < fewer && #[trigger] is_newest(rows, before[i], source);
                assert(is_newest(rows, after[i], source));
            } else {
                assert(is_newest(rows, after[i], newest));
            }
        }
        assert forall|source: UpstreamSource| source.position() < providers implies ((
        #[trigger] newest_row(rows, source)) is Some <==> (exists|i: int|
            0 <= i < after.len() && qualifies(#[trigger] after[i], source))) by {
            if source == newest {
                if newest_row(rows, newest) is Some {
                    assert(qualifies(after[before.len() as int], newest));
                } else {
                    assert forall|i: int| 0 <= i < after.len() implies !qualifies(
                        #[trigger] after[i],
                        newest,
                    ) by {
                        assert(is_newest_of_some(rows, before[i], fewer));
                        let other = choose|other: UpstreamSource|
                            other.position() < fewer && #[trigger] is_newest(
                                rows,
                                before[i],
                                other,
                            );
                        law_names_are_distinct(other, newest);
                    }
                }
            } else {
                assert(source.position() < fewer) by {
                    assert(all_sources()[source.position() as int] == source);
                }
                if newest_row(rows, source) is Some {
                    let i = choose|i: int|
                        0 <= i < before.len() && qualifies(#[trigger] before[i], source);
                    assert(after[i] == before[i]);
                } else {
                    assert forall|i: int| 0 <= i < after.len() implies !qualifies(
                        #[trigger] after[i],
                        source,
                    ) by {
                        if i < before.len() {
                            assert(after[i] == before[i]);
                        } else {
                            law_names_are_distinct(source, newest);
                        }
                    }
                }
            }
        }
        assert(after.len() == providers <==> (forall|source: UpstreamSource|
            source.position() < providers ==> (#[trigger] newest_row(rows, source)) is Some)) by {
            assert forall|source: UpstreamSource| source.position() < providers implies source
                == newest || source.position() < fewer by {
                assert(all_sources()[source.position() as int] == source);
            }
            if after.len() == providers {
                assert(newest_row(rows, newest) is Some);
            }
        }
        assert forall|i: int, j: int| 0 <= i < j < after.len() implies precedes(
            #[trigger] after[i],
            #[trigger] after[j],
        ) by {
            assert(after[i] == before[i]);
            if j < before.len() {
                assert(after[j] == before[j]);
            } else {
                assert(is_newest_of_some(rows, before[i], fewer));
                let source = choose|source: UpstreamSource|
                    source.position() < fewer && #[trigger] is_newest(rows, before[i], source);
                assert(qualifies(after[i], source));
                assert(qualifies(after[j], newest));
            }
        }
    }
}

/// Whether a row is the newest qualifying one of a provider.
pub open spec fn is_newest(
    rows: Seq<SourceModel>,
    row: SourceModel,
    source: UpstreamSource,
) -> bool {
    &&& qualifies(row, source)
    &&& newest_row(rows, source) matches Some(place)
    &&& row == rows[place]
}

/// Whether a row is the newest qualifying one of one of the first providers.
pub open spec fn is_newest_of_some(
    rows: Seq<SourceModel>,
    row: SourceModel,
    providers: nat,
) -> bool {
    exists|source: UpstreamSource|
        source.position() < providers && #[trigger] is_newest(rows, row, source)
}

/// Whether two rows are of configured providers, the first before the second.
pub open spec fn precedes(a: SourceModel, b: SourceModel) -> bool {
    exists|first: UpstreamSource, second: UpstreamSource| {
        &&& first.position() < second.position()
        &&& #[trigger] qualifies(a, first)
        &&& #[trigger] qualifies(b, second)
    }
}

/// Contributors are fresh rows of configured providers, each provider's newest, in configured
/// order and without repetition; duplicates and unknown providers do not inflate their number.
pub proof fn law_each_provider_contributes_at_most_once(rows: Seq<SourceModel>)
    ensures
        contributors(rows, SOURCE_COUNT as nat).len() <= SOURCE_COUNT,
        forall|i: int|
            0 <= i < contributors(rows, SOURCE_COUNT as nat).len() ==> is_newest_of_some(
                rows,
                #[trigger] contributors(rows, SOURCE_COUNT as nat)[i],
                SOURCE_COUNT as nat,
            ),
        forall|i: int, j: int|
            0 <= i < j < contributors(rows, SOURCE_COUNT as nat).len() ==> precedes(
                #[trigger] contributors(rows, SOURCE_COUNT as nat)[i],
                #[trigger] contributors(rows, SOURCE_COUNT as nat)[j],
            ),
        row_names(contributors(rows, SOURCE_COUNT as nat)).no_duplicates(),
{
    let all = contributors(rows, SOURCE_COUNT as nat);
    lemma_contributors(rows, SOURCE_COUNT as nat);
    assert forall|i: int, j: int| 0 <= i < j < all.len() implies row_names(all)[i] != row_names(
        all,
    )[j] by {
        assert(precedes(all[i], all[j]));
        let (first, second) = choose|first: UpstreamSource, second: UpstreamSource| {
            &&& first.position() < second.position()
            &&& #[trigger] qualifies(all[i], first)
            &&& #[trigger] qualifies(all[j], second)
        };
        law_names_are_distinct(first, second);
    }
}

/// A reply is live where every configured provider has a fresh quote and a recorded success, and
/// only there.
#[verifier::spinoff_prover]
pub proof fn law_live_needs_every_provider(
    quotes: Seq<QuoteModel>,
    health: Seq<HealthModel>,
    now: i64,
)
    ensures
        evaluated_status(quotes, health, now) == PriceStatus::Live <==> (forall|
            source: UpstreamSource,
        |
            #![trigger healthy(health, source)]
            healthy(health, source) && exists|i: int|
                0 <= i < rows_at(quotes, now).len() && qualifies(
                    #[trigger] rows_at(quotes, now)[i],
                    source,
                )),
{
    let rows = rows_at(quotes, now);
    lemma_contributors(rows, SOURCE_COUNT as nat);
    assert forall|source: UpstreamSource|
        source.position() < SOURCE_COUNT && ((#[trigger] newest_row(rows, source)) is Some <==> (
        exists|i: int| 0 <= i < rows.len() && qualifies(#[trigger] rows[i], source))) by {
        law_newest_observation_contributes(rows, source);
    }
    if contributors(rows, SOURCE_COUNT as nat).len() == SOURCE_COUNT {
        assert forall|source: UpstreamSource| #[trigger] healthy(health, source) implies exists|
            i: int,
        | 0 <= i < rows.len() && qualifies(#[trigger] rows[i], source) by {
            assert(newest_row(rows, source) is Some);
        }
    } else {
        let missing = choose|source: UpstreamSource|
            source.position() < SOURCE_COUNT && newest_row(rows, source) is None;
        assert(healthy(health, missing) ==> !(exists|i: int|
            0 <= i < rows.len() && qualifies(#[trigger] rows[i], missing)));
    }
}

/// A reply without contributors is stale where a usable quote is retained, else unavailable.
pub proof fn law_nothing_fresh_is_stale_or_unavailable(
    quotes: Seq<QuoteModel>,
    health: Seq<HealthModel>,
    now: i64,
)
    requires
        forall|i: int, source: UpstreamSource|
            0 <= i < rows_at(quotes, now).len() ==> !#[trigger] qualifies(
                rows_at(quotes, now)[i],
                source,
            ),
    ensures
        evaluated_status(quotes, health, now) == if exists|i: int|
            0 <= i < quotes.len() && (#[trigger] quotes[i]).price_usd.usable() {
            PriceStatus::Stale
        } else {
            PriceStatus::Unavailable
        },
{
    let rows = rows_at(quotes, now);
    let all = contributors(rows, SOURCE_COUNT as nat);
    lemma_contributors(rows, SOURCE_COUNT as nat);
    if all.len() > 0 {
        assert(is_newest_of_some(rows, all[0], SOURCE_COUNT as nat));
        let source = choose|source: UpstreamSource|
            source.position() < SOURCE_COUNT && #[trigger] is_newest(rows, all[0], source);
        law_newest_observation_contributes(rows, source);
    }
    if exists|i: int| 0 <= i < quotes.len() && (#[trigger] quotes[i]).price_usd.usable() {
        let i = choose|i: int| 0 <= i < quotes.len() && (#[trigger] quotes[i]).price_usd.usable();
        law_usable_quotes_stay_visible(quotes, now, row_at(quotes[i], now));
        assert(rows.len() > 0);
    } else if rows.len() > 0 {
        law_usable_quotes_stay_visible(quotes, now, rows[0]);
        assert(rows.contains(rows[0]));
    }
}

/// The row at an optional place.
spec fn row_in(rows: Seq<SourceModel>, place: Option<int>) -> Option<SourceModel> {
    match place {
        Some(i) => Some(rows[i]),
        None => None,
    }
}

/// A row that does not qualify leaves a provider's newest row as it is, wherever it is put.
proof fn lemma_other_rows_do_not_contribute(
    rows: Seq<SourceModel>,
    place: int,
    row: SourceModel,
    source: UpstreamSource,
)
    requires
        0 <= place <= rows.len(),
        !qualifies(row, source),
    ensures
        row_in(rows.insert(place, row), newest_row(rows.insert(place, row), source)) == row_in(
            rows,
            newest_row(rows, source),
        ),
    decreases rows.len(),
{
    let more = rows.insert(place, row);
    law_newest_observation_contributes(rows, source);
    if place == rows.len() {
        assert(more.drop_last() =~= rows);
    } else {
        let fewer = rows.drop_last();
        assert(more.drop_last() =~= fewer.insert(place, row));
        law_newest_observation_contributes(fewer, source);
        law_newest_observation_contributes(fewer.insert(place, row), source);
        lemma_other_rows_do_not_contribute(fewer, place, row, source);
    }
}

/// One more quote has one more reply row, where its price is usable, and changes no other.
proof fn lemma_rows_with_one_more(quotes: Seq<QuoteModel>, place: int, quote: QuoteModel, now: i64)
    requires
        0 <= place <= quotes.len(),
    ensures
        rows_at(quotes.take(place), now).len() <= rows_at(quotes, now).len(),
        rows_at(quotes.insert(place, quote), now) == if quote.price_usd.usable() {
            rows_at(quotes, now).insert(
                rows_at(quotes.take(place), now).len() as int,
                row_at(quote, now),
            )
        } else {
            rows_at(quotes, now)
        },
    decreases quotes.len(),
{
    let more = quotes.insert(place, quote);
    if place == quotes.len() {
        assert(more.drop_last() =~= quotes);
        assert(quotes.take(place) =~= quotes);
        assert(rows_at(more, now) =~= if quote.price_usd.usable() {
            rows_at(quotes, now).insert(rows_at(quotes, now).len() as int, row_at(quote, now))
        } else {
            rows_at(quotes, now)
        });
    } else {
        let fewer = quotes.drop_last();
        assert(more.drop_last() =~= fewer.insert(place, quote));
        assert(fewer.take(place) =~= quotes.take(place));
        lemma_rows_with_one_more(fewer, place, quote, now);
        let at = rows_at(quotes.take(place), now).len() as int;
        let last = row_at(quotes.last(), now);
        assert(rows_at(fewer, now).insert(at, row_at(quote, now)).push(last) =~= rows_at(
            fewer,
            now,
        ).push(last).insert(at, row_at(quote, now)));
    }
}

/// Rows with the same newest row of every provider have the same contributors.
proof fn lemma_same_contributors(a: Seq<SourceModel>, b: Seq<SourceModel>, providers: nat)
    requires
        providers <= SOURCE_COUNT,
        forall|source: UpstreamSource|
            row_in(a, #[trigger] newest_row(a, source)) == row_in(b, newest_row(b, source)),
    ensures
        contributors(a, providers) == contributors(b, providers),
    decreases providers,
{
    if providers > 0 {
        lemma_same_contributors(a, b, (providers - 1) as nat);
        let source = all_sources()[providers - 1];
        assert(row_in(a, newest_row(a, source)) == row_in(b, newest_row(b, source)));
    }
}

/// A quote whose price is not usable, or that is not fresh, changes neither average nor spread nor
/// coverage, wherever it stands: those of unknown providers, undated ones, old ones and future ones
/// among them.
pub proof fn law_other_quotes_do_not_contribute(
    quotes: Seq<QuoteModel>,
    place: int,
    quote: QuoteModel,
    now: i64,
)
    requires
        0 <= place <= quotes.len(),
        !quote.price_usd.usable() || freshness_at(quote, now) != SourceFreshness::Fresh,
    ensures
        contributors(rows_at(quotes.insert(place, quote), now), SOURCE_COUNT as nat)
            == contributors(rows_at(quotes, now), SOURCE_COUNT as nat),
{
    lemma_rows_with_one_more(quotes, place, quote, now);
    if quote.price_usd.usable() {
        let rows = rows_at(quotes, now);
        let at = rows_at(quotes.take(place), now).len() as int;
        let row = row_at(quote, now);
        assert forall|source: UpstreamSource|
            row_in(rows, #[trigger] newest_row(rows, source)) == row_in(
                rows.insert(at, row),
                newest_row(rows.insert(at, row), source),
            ) by {
            lemma_other_rows_do_not_contribute(rows, at, row, source);
        }
        lemma_same_contributors(rows, rows.insert(at, row), SOURCE_COUNT as nat);
    }
}

/// A single contributor is both the lowest and the highest price, and none leave no range.
pub proof fn law_single_contributors_have_no_spread(
    evaluation: QuoteEvaluation,
    quotes: Seq<QuoteModel>,
    health: Seq<HealthModel>,
    now: i64,
)
    requires
        evaluates(evaluation, quotes, health, now),
    ensures
        evaluation.coverage.fresh_source_count == evaluation.contributing_prices@.len(),
        evaluation.contributing_prices@.len() == 1 ==> evaluation.price_range == Some(
            (evaluation.contributing_prices@[0], evaluation.contributing_prices@[0]),
        ),
        evaluation.contributing_prices@.len() == 0 <==> evaluation.price_range is None,
{
    if evaluation.contributing_prices@.len() == 1 {
        let (low, high) = evaluation.price_range->0;
        let prices = evaluation.contributing_prices@;
        assert(prices.contains(low) && prices.contains(high));
    }
    if let Some(range) = evaluation.price_range {
        let prices = evaluation.contributing_prices@;
        assert(prices.contains(range.0));
        assert(prices.len() > 0);
    }
}

/// Whether a quote counts for a provider at a time: it bears the provider's name, its price is
/// usable, and it was observed less than ninety seconds ago and not in the future.
pub open spec fn counts_for(quote: QuoteModel, source: UpstreamSource, now: i64) -> bool {
    &&& quote.source == source_name(source)
    &&& quote.price_usd.usable()
    &&& quote.last_success_at_unix is Some
    &&& 0 <= now - quote.last_success_at_unix->0 < 90
}

/// Whether a quote is the one that counts for a provider: none that counts was observed later, and
/// none that was observed in the same second stands behind it.
pub open spec fn counts_most(
    quotes: Seq<QuoteModel>,
    i: int,
    source: UpstreamSource,
    now: i64,
) -> bool {
    &&& 0 <= i < quotes.len()
    &&& counts_for(quotes[i], source, now)
    &&& forall|j: int|
        0 <= j < quotes.len() && counts_for(#[trigger] quotes[j], source, now) ==> {
            ||| quotes[j].last_success_at_unix->0 < quotes[i].last_success_at_unix->0
            ||| quotes[j].last_success_at_unix->0 == quotes[i].last_success_at_unix->0 && j <= i
        }
}

/// A quote qualifies for a provider where it counts for it.
proof fn lemma_qualifying_quotes_count(quote: QuoteModel, source: UpstreamSource, now: i64)
    requires
        quote.price_usd.usable(),
    ensures
        qualifies(row_at(quote, now), source) <==> counts_for(quote, source, now),
{
    if quote.source == source_name(source) {
        assert(configured(quote.source));
    }
}

/// The newest row of a provider is that of the quote that counts for it.
proof fn lemma_newest_rows_count_most(quotes: Seq<QuoteModel>, source: UpstreamSource, now: i64)
    ensures
        match newest_row(rows_at(quotes, now), source) {
            Some(place) => {
                &&& 0 <= place < rows_at(quotes, now).len()
                &&& exists|i: int| #[trigger]
                    counts_most(quotes, i, source, now) && rows_at(quotes, now)[place] == row_at(
                        quotes[i],
                        now,
                    )
            },
            None => forall|i: int|
                0 <= i < quotes.len() ==> !counts_for(#[trigger] quotes[i], source, now),
        },
    decreases quotes.len(),
{
    if quotes.len() > 0 {
        let before = quotes.drop_last();
        let last = quotes.last();
        let end = quotes.len() - 1;
        let rows = rows_at(quotes, now);
        let earlier = rows_at(before, now);
        lemma_newest_rows_count_most(before, source, now);
        assert forall|j: int| 0 <= j < end implies #[trigger] quotes[j] == before[j] by {}
        if last.price_usd.usable() {
            lemma_qualifying_quotes_count(last, source, now);
            assert(rows.drop_last() =~= earlier);
            assert(rows.last() == row_at(last, now));
        }
        match newest_row(rows, source) {
            Some(place) => {
                if last.price_usd.usable() && place == earlier.len() {
                    assert(counts_for(quotes[end], source, now));
                    if newest_row(earlier, source) is Some {
                        let i = choose|i: int| #[trigger]
                            counts_most(before, i, source, now)
                                && earlier[newest_row(earlier, source)->0] == row_at(
                                before[i],
                                now,
                            );
                        assert forall|j: int|
                            0 <= j < quotes.len() && counts_for(
                                #[trigger] quotes[j],
                                source,
                                now,
                            ) implies {
                            ||| quotes[j].last_success_at_unix->0
                                < quotes[end].last_success_at_unix->0
                            ||| quotes[j].last_success_at_unix->0
                                == quotes[end].last_success_at_unix->0 && j <= end
                        } by {
                            if j < end {
                                assert(counts_for(before[j], source, now));
                            }
                        }
                    } else {
                        assert forall|j: int|
                            0 <= j < quotes.len() && counts_for(
                                #[trigger] quotes[j],
                                source,
                                now,
                            ) implies j == end by {
                            if j < end {
                                assert(!counts_for(before[j], source, now));
                            }
                        }
                    }
                    assert(counts_most(quotes, end, source, now));
                } else {
                    let i = choose|i: int| #[trigger]
                        counts_most(before, i, source, now) && earlier[place] == row_at(
                            before[i],
                            now,
                        );
                    assert forall|j: int|
                        0 <= j < quotes.len() && counts_for(
                            #[trigger] quotes[j],
                            source,
                            now,
                        ) implies {
                        ||| quotes[j].last_success_at_unix->0 < quotes[i].last_success_at_unix->0
                        ||| quotes[j].last_success_at_unix->0 == quotes[i].last_success_at_unix->0
                            && j <= i
                    } by {
                        if j < end {
                            assert(counts_for(before[j], source, now));
                        }
                    }
                    assert(counts_most(quotes, i, source, now));
                }
            },
            None => {
                assert forall|j: int| 0 <= j < quotes.len() implies !counts_for(
                    #[trigger] quotes[j],
                    source,
                    now,
                ) by {
                    if j < end {
                        assert(!counts_for(before[j], source, now));
                    }
                }
            },
        }
    }
}

/// The reply has one row for each stored quote with a usable price, in their order: the rows of two
/// lists of quotes behind one another are their rows behind one another, and a single quote has the
/// row that shows it, with its age in seconds where that is known and not negative.
pub proof fn law_rows_follow_the_quotes(
    quotes: Seq<QuoteModel>,
    more: Seq<QuoteModel>,
    quote: QuoteModel,
    now: i64,
)
    ensures
        rows_at(quotes + more, now) == rows_at(quotes, now) + rows_at(more, now),
        !quote.price_usd.usable() ==> rows_at(seq![quote], now).len() == 0,
        quote.price_usd.usable() ==> {
            &&& rows_at(seq![quote], now).len() == 1
            &&& rows_at(seq![quote], now)[0].quote == quote
            &&& match rows_at(seq![quote], now)[0].age_seconds {
                Some(age) => {
                    &&& quote.last_success_at_unix is Some
                    &&& age == now - quote.last_success_at_unix->0
                    &&& age >= 0
                },
                None => quote.last_success_at_unix is None || now < quote.last_success_at_unix->0
                    || now - quote.last_success_at_unix->0 > i64::MAX,
            }
        },
    decreases more.len(),
{
    let single = seq![quote];
    assert(single.drop_last() =~= Seq::empty());
    assert(rows_at(single.drop_last(), now).len() == 0);
    if more.len() == 0 {
        assert(quotes + more =~= quotes);
        assert(rows_at(quotes, now) + rows_at(more, now) =~= rows_at(quotes, now));
    } else {
        law_rows_follow_the_quotes(quotes, more.drop_last(), quote, now);
        assert((quotes + more).drop_last() =~= quotes + more.drop_last());
        assert((quotes + more).last() == more.last());
        assert(rows_at(quotes + more, now) =~= rows_at(quotes, now) + rows_at(more, now));
    }
}

/// How the row of a quote stands: of a configured provider it is fresh for the first ninety seconds
/// of its age, then stale, and before its own second in the future; any other, one without a time
/// and one whose age is no number are of unknown freshness.
pub proof fn law_rows_stand_as_their_age_says(quote: QuoteModel, now: i64)
    requires
        quote.price_usd.usable(),
    ensures
        ({
            let row = rows_at(seq![quote], now)[0];
            let known = (exists|source: UpstreamSource|
                #[trigger] source_name(source) == quote.source)
                && quote.last_success_at_unix is Some;
            let age = now - quote.last_success_at_unix->0;
            &&& row.freshness == SourceFreshness::Fresh <==> known && 0 <= age < 90
            &&& row.freshness == SourceFreshness::Stale <==> known && 90 <= age <= i64::MAX
            &&& row.freshness == SourceFreshness::Future <==> known && age < 0
            &&& row.freshness == SourceFreshness::Unknown <==> !known || age > i64::MAX
        }),
{
    let single = seq![quote];
    assert(single.drop_last() =~= Seq::empty());
    assert(rows_at(single.drop_last(), now).len() == 0);
    assert(rows_at(single, now)[0] == row_at(quote, now));
}

/// A provider contributes where a quote counts for it, and then with the quote that counts most:
/// each contributor is one, and each provider with such a quote is among them, in configured order.
pub proof fn law_contributors_are_the_quotes_that_count(
    evaluation: QuoteEvaluation,
    quotes: Seq<QuoteModel>,
    health: Seq<HealthModel>,
    now: i64,
)
    requires
        evaluates(evaluation, quotes, health, now),
    ensures
        evaluation.coverage.configured_source_count == 4,
        evaluation.coverage.fresh_source_count == evaluation.contributing_prices@.len(),
        evaluation.coverage.contributing_sources@.len() == evaluation.contributing_prices@.len(),
        evaluation.contributing_prices@.len() <= 4,
        forall|k: int|
            0 <= k < evaluation.contributing_prices@.len() ==> contributes(
                quotes,
                now,
                #[trigger] evaluation.contributing_prices@[k],
                evaluation.coverage.contributing_sources@[k]@,
            ),
        forall|source: UpstreamSource, i: int|
            0 <= i < quotes.len() && #[trigger] counts_for(quotes[i], source, now) ==> exists|
                k: int,
            |
                0 <= k < evaluation.coverage.contributing_sources@.len() && (
                #[trigger] evaluation.coverage.contributing_sources@[k])@ == source_name(source),
        forall|j: int, k: int|
            0 <= j < k < evaluation.coverage.contributing_sources@.len() ==> in_configured_order(
                (#[trigger] evaluation.coverage.contributing_sources@[j])@,
                (#[trigger] evaluation.coverage.contributing_sources@[k])@,
            ),
{
    let rows = rows_at(quotes, now);
    let all = contributors(rows, SOURCE_COUNT as nat);
    let names = evaluation.coverage.contributing_sources@;
    lemma_contributors(rows, SOURCE_COUNT as nat);
    assert(text_models(names) == row_names(all));
    assert(names.len() == text_models(names).len());
    assert(row_prices(all).len() == all.len());
    assert forall|k: int| 0 <= k < names.len() implies (#[trigger] names[k])@
        == all[k].quote.source by {
        assert(text_models(names)[k] == row_names(all)[k]);
    }
    assert forall|k: int| 0 <= k < evaluation.contributing_prices@.len() implies contributes(
        quotes,
        now,
        #[trigger] evaluation.contributing_prices@[k],
        names[k]@,
    ) by {
        assert(is_newest_of_some(rows, all[k], SOURCE_COUNT as nat));
        let source = choose|source: UpstreamSource|
            source.position() < SOURCE_COUNT && #[trigger] is_newest(rows, all[k], source);
        lemma_newest_rows_count_most(quotes, source, now);
        let i = choose|i: int| #[trigger]
            counts_most(quotes, i, source, now) && rows[newest_row(rows, source)->0] == row_at(
                quotes[i],
                now,
            );
        assert(all[k].quote == quotes[i]);
        assert(counts_most(quotes, i, source, now));
    }
    assert forall|source: UpstreamSource, i: int|
        0 <= i < quotes.len() && #[trigger] counts_for(quotes[i], source, now) implies exists|
        k: int,
    | 0 <= k < names.len() && (#[trigger] names[k])@ == source_name(source) by {
        lemma_newest_rows_count_most(quotes, source, now);
        assert(newest_row(rows, source) is Some);
        assert(source.position() < SOURCE_COUNT);
        let k = choose|k: int| 0 <= k < all.len() && qualifies(#[trigger] all[k], source);
        assert(names[k]@ == source_name(source));
    }
    assert forall|j: int, k: int| 0 <= j < k < names.len() implies in_configured_order(
        (#[trigger] names[j])@,
        (#[trigger] names[k])@,
    ) by {
        assert(precedes(all[j], all[k]));
        let (first, second) = choose|first: UpstreamSource, second: UpstreamSource| {
            &&& first.position() < second.position()
            &&& #[trigger] qualifies(all[j], first)
            &&& #[trigger] qualifies(all[k], second)
        };
        assert(source_name(first) == names[j]@ && source_name(second) == names[k]@);
    }
}

/// Whether a price is that of the quote that counts most for the provider of a name.
pub open spec fn contributes(
    quotes: Seq<QuoteModel>,
    now: i64,
    price: Price,
    name: Seq<char>,
) -> bool {
    exists|source: UpstreamSource, i: int| {
        &&& #[trigger] counts_most(quotes, i, source, now)
        &&& source_name(source) == name
        &&& quotes[i].price_usd == price
    }
}

/// Whether two names are those of configured providers, the first before the second.
pub open spec fn in_configured_order(a: Seq<char>, b: Seq<char>) -> bool {
    exists|first: UpstreamSource, second: UpstreamSource| {
        &&& #[trigger] source_name(first) == a
        &&& #[trigger] source_name(second) == b
        &&& first.position() < second.position()
    }
}

/// The range of a reply goes from the lowest to the highest contributing price; there is none where
/// nothing contributes.
pub proof fn law_ranges_span_the_contributors(
    evaluation: QuoteEvaluation,
    quotes: Seq<QuoteModel>,
    health: Seq<HealthModel>,
    now: i64,
)
    requires
        evaluates(evaluation, quotes, health, now),
    ensures
        evaluation.price_range is None <==> evaluation.contributing_prices@.len() == 0,
        evaluation.price_range matches Some(range) ==> {
            &&& evaluation.contributing_prices@.contains(range.0)
            &&& evaluation.contributing_prices@.contains(range.1)
            &&& forall|k: int|
                0 <= k < evaluation.contributing_prices@.len() ==> range.0.bits <= (
                #[trigger] evaluation.contributing_prices@[k]).bits <= range.1.bits
        },
{
    law_single_contributors_have_no_spread(evaluation, quotes, health, now);
}

/// The status of a reply, from what is stored: live where every provider has a quote that counts
/// and a recorded success; else degraded where any quote counts; else stale where any quote has a
/// usable price; else unavailable.
#[verifier::spinoff_prover]
pub proof fn law_status_tells_what_counts(
    evaluation: QuoteEvaluation,
    quotes: Seq<QuoteModel>,
    health: Seq<HealthModel>,
    now: i64,
)
    requires
        evaluates(evaluation, quotes, health, now),
    ensures
        evaluation.status == PriceStatus::Live <==> forall|source: UpstreamSource| #[trigger]
            counted(quotes, source, now) && succeeded(health, source),
        evaluation.status != PriceStatus::Live ==> (evaluation.status == PriceStatus::Degraded
            <==> exists|source: UpstreamSource| #[trigger] counted(quotes, source, now)),
        evaluation.status == PriceStatus::Stale || evaluation.status == PriceStatus::Unavailable
            ==> forall|source: UpstreamSource| !#[trigger] counted(quotes, source, now),
        evaluation.status == PriceStatus::Unavailable <==> forall|i: int|
            0 <= i < quotes.len() ==> !(#[trigger] quotes[i]).price_usd.usable(),
{
    let rows = rows_at(quotes, now);
    let all = contributors(rows, SOURCE_COUNT as nat);
    lemma_contributors(rows, SOURCE_COUNT as nat);
    assert forall|source: UpstreamSource| #[trigger]
        counted(quotes, source, now) <==> newest_row(rows, source) is Some by {
        lemma_newest_rows_count_most(quotes, source, now);
        if newest_row(rows, source) is Some {
            let i = choose|i: int| #[trigger] counts_most(quotes, i, source, now);
            assert(counts_for(quotes[i], source, now));
        }
    }
    assert forall|source: UpstreamSource| source.position() < SOURCE_COUNT by {}
    assert forall|source: UpstreamSource| #[trigger]
        succeeded(health, source) <==> healthy(health, source) by {}
    assert(all.len() == SOURCE_COUNT <==> forall|source: UpstreamSource| #[trigger]
        counted(quotes, source, now)) by {
        if all.len() == SOURCE_COUNT {
            assert forall|source: UpstreamSource| #[trigger] counted(quotes, source, now) by {
                assert(newest_row(rows, source) is Some);
            }
        } else {
            let missing = choose|source: UpstreamSource|
                source.position() < SOURCE_COUNT && newest_row(rows, source) is None;
            assert(!counted(quotes, missing, now));
        }
    }
    assert(all.len() > 0 <==> exists|source: UpstreamSource| #[trigger]
        counted(quotes, source, now)) by {
        if all.len() > 0 {
            assert(is_newest_of_some(rows, all[0], SOURCE_COUNT as nat));
            let source = choose|source: UpstreamSource|
                source.position() < SOURCE_COUNT && #[trigger] is_newest(rows, all[0], source);
            assert(counted(quotes, source, now));
        }
        if exists|source: UpstreamSource| #[trigger] counted(quotes, source, now) {
            let source = choose|source: UpstreamSource| #[trigger] counted(quotes, source, now);
            assert(newest_row(rows, source) is Some);
        }
    }
    if all_healthy(health) {
        assert forall|source: UpstreamSource| #[trigger] succeeded(health, source) by {
            assert(healthy(health, source));
        }
    }
    if evaluation.status == PriceStatus::Live {
        assert forall|source: UpstreamSource| #[trigger]
            counted(quotes, source, now) && succeeded(health, source) by {
            assert(healthy(health, source));
        }
    }
    if forall|source: UpstreamSource| #[trigger]
        counted(quotes, source, now) && succeeded(health, source) {
        assert forall|source: UpstreamSource| #[trigger] succeeded(health, source) by {
            assert(counted(quotes, source, now) && succeeded(health, source));
        }
        assert forall|source: UpstreamSource| #[trigger] healthy(health, source) by {
            assert(succeeded(health, source));
        }
    }
    if exists|i: int| 0 <= i < quotes.len() && (#[trigger] quotes[i]).price_usd.usable() {
        let i = choose|i: int| 0 <= i < quotes.len() && (#[trigger] quotes[i]).price_usd.usable();
        law_usable_quotes_stay_visible(quotes, now, row_at(quotes[i], now));
        assert(rows.len() > 0);
    } else if rows.len() > 0 {
        law_usable_quotes_stay_visible(quotes, now, rows[0]);
        assert(rows.contains(rows[0]));
    } else if all.len() > 0 {
        assert(is_newest_of_some(rows, all[0], SOURCE_COUNT as nat));
    }
}

/// Whether any quote counts for a provider.
pub open spec fn counted(quotes: Seq<QuoteModel>, source: UpstreamSource, now: i64) -> bool {
    exists|i: int| 0 <= i < quotes.len() && counts_for(#[trigger] quotes[i], source, now)
}

/// Whether a provider's latest attempt is recorded as a success.
pub open spec fn succeeded(health: Seq<HealthModel>, source: UpstreamSource) -> bool {
    exists|i: int|
        0 <= i < health.len() && (#[trigger] health[i]).source == source_name(source)
            && health[i].last_attempt is Success
}

/// An evaluation shows the reply rows of the quotes.
pub proof fn law_evaluations_show_the_rows(
    evaluation: QuoteEvaluation,
    quotes: Seq<QuoteModel>,
    health: Seq<HealthModel>,
    now: i64,
)
    requires
        evaluates(evaluation, quotes, health, now),
    ensures
        source_models(evaluation.sources@) == rows_at(quotes, now),
        evaluation.sources@.len() == rows_at(quotes, now).len(),
{
    assert(source_models(evaluation.sources@).len() == evaluation.sources@.len());
}

} // verus!
