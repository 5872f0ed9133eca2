//! Merging new quotes into the stored ones.
use crate::errors::{failure_text, recorded_failure, ProviderError, ProviderErrorKind};
use crate::models::source_contract::{
    health_models, kind_of_source, quote_models, text_models, AttemptModel, HealthModel,
    LastAttempt, ProviderHealth, QuoteKind, QuoteModel, StoredQuote,
};
use crate::models::{SnapshotModel, SnapshotRecord};
use crate::price::Price;
use crate::refresh::AttemptResult;
use crate::sources::{law_names_are_distinct, source_name, UpstreamSource, SOURCE_COUNT};
use crate::text::{
    is_text_before, lemma_text_order_is_transitive, lemma_texts_are_ordered, same_text,
    text_before,
};
use vstd::prelude::*;

verus! {

/// The place of a provider's name: configured providers stand first, in configured order.
pub open spec fn rank(name: Seq<char>) -> nat {
    if name == source_name(UpstreamSource::CoinGecko) {
        0
    } else if name == source_name(UpstreamSource::Coinbase) {
        1
    } else if name == source_name(UpstreamSource::Kraken) {
        2
    } else if name == source_name(UpstreamSource::Gemini) {
        3
    } else {
        SOURCE_COUNT as nat
    }
}

/// Whether a name stands before another: by place, then in the order of the characters.
pub open spec fn name_before(a: Seq<char>, b: Seq<char>) -> bool {
    rank(a) < rank(b) || (rank(a) == rank(b) && text_before(a, b))
}

/// Whether rows stand in the order of their names, each name once.
pub open spec fn in_order(rows: Seq<QuoteModel>) -> bool {
    forall|i: int, j: int|
        0 <= i < j < rows.len() ==> name_before(
            (#[trigger] rows[i]).source,
            (#[trigger] rows[j]).source,
        )
}

/// The last row under a name.
pub open spec fn last_row(rows: Seq<QuoteModel>, name: Seq<char>) -> Option<QuoteModel>
    decreases rows.len(),
{
    if rows.len() == 0 {
        None
    } else if rows.last().source == name {
        Some(rows.last())
    } else {
        last_row(rows.drop_last(), name)
    }
}

/// The rows with a usable price.
pub open spec fn usable_rows(rows: Seq<QuoteModel>) -> Seq<QuoteModel>
    decreases rows.len(),
{
    if rows.len() == 0 {
        Seq::empty()
    } else if rows.last().price_usd.usable() {
        usable_rows(rows.drop_last()).push(rows.last())
    } else {
        usable_rows(rows.drop_last())
    }
}

/// Of two different names one stands before the other, and not both.
pub proof fn lemma_names_are_ordered(a: Seq<char>, b: Seq<char>)
    ensures
        a != b ==> (name_before(a, b) <==> !name_before(b, a)),
        a == b ==> !name_before(a, b),
{
    lemma_texts_are_ordered(a, b);
}

/// The order of names is transitive.
pub proof fn lemma_name_order_is_transitive(a: Seq<char>, b: Seq<char>, c: Seq<char>)
    requires
        name_before(a, b),
        name_before(b, c),
    ensures
        name_before(a, c),
{
    if rank(a) == rank(b) && rank(b) == rank(c) {
        lemma_text_order_is_transitive(a, b, c);
    }
}

/// The last row under a name is one of the rows, and none stands behind it.
pub proof fn lemma_last_row(rows: Seq<QuoteModel>, name: Seq<char>)
    ensures
        last_row(rows, name) matches Some(row) ==> row.source == name && exists|i: int|
            0 <= i < rows.len() && #[trigger] rows[i] == row,
        last_row(rows, name) is None ==> forall|i: int|
            0 <= i < rows.len() ==> (#[trigger] rows[i]).source != name,
    decreases rows.len(),
{
    if rows.len() > 0 {
        let before = rows.drop_last();
        lemma_last_row(before, name);
        if rows.last().source == name {
            assert(rows[rows.len() - 1] == rows.last());
        } else {
            if last_row(before, name) is Some {
                let i = choose|i: int|
                    0 <= i < before.len() && #[trigger] before[i] == last_row(before, name)->0;
                assert(rows[i] == before[i]);
            } else {
                assert forall|i: int| 0 <= i < rows.len() implies (#[trigger] rows[i]).source
                    != name by {
                    if i < before.len() {
                        assert(before[i] == rows[i]);
                    }
                }
            }
        }
    }
}

/// In an ordered list each row is the last one under its name.
proof fn lemma_ordered_rows_are_last(rows: Seq<QuoteModel>, i: int)
    requires
        in_order(rows),
        0 <= i < rows.len(),
    ensures
        last_row(rows, rows[i].source) == Some(rows[i]),
{
    lemma_last_row(rows, rows[i].source);
    let found = last_row(rows, rows[i].source);
    assert(found is Some);
    let j = choose|j: int| 0 <= j < rows.len() && #[trigger] rows[j] == found->0;
    lemma_names_are_ordered(rows[i].source, rows[j].source);
    if i < j {
        assert(name_before(rows[i].source, rows[j].source));
    } else if j < i {
        assert(name_before(rows[j].source, rows[i].source));
    }
}

/// An ordered list is determined by its row under each name.
pub proof fn law_ordered_rows_are_determined(a: Seq<QuoteModel>, b: Seq<QuoteModel>)
    requires
        in_order(a),
        in_order(b),
        forall|name: Seq<char>| #[trigger] last_row(a, name) == last_row(b, name),
    ensures
        a == b,
    decreases a.len(),
{
    if a.len() == 0 {
        if b.len() > 0 {
            lemma_ordered_rows_are_last(b, 0);
            lemma_last_row(a, b[0].source);
        }
        assert(a =~= b);
    } else {
        lemma_ordered_rows_are_last(a, a.len() - 1);
        lemma_last_row(b, a.last().source);
        let i = choose|i: int| 0 <= i < b.len() && #[trigger] b[i] == a.last();
        lemma_ordered_rows_are_last(b, b.len() - 1);
        lemma_last_row(a, b.last().source);
        let j = choose|j: int| 0 <= j < a.len() && #[trigger] a[j] == b.last();
        if i < b.len() - 1 {
            assert(name_before(b[i].source, b[b.len() - 1].source));
            if j < a.len() - 1 {
                assert(name_before(a[j].source, a[a.len() - 1].source));
            }
            lemma_names_are_ordered(a.last().source, b.last().source);
        }
        assert(a.last() == b.last());
        let c = a.drop_last();
        let d = b.drop_last();
        lemma_prefix_in_order(a);
        lemma_prefix_in_order(b);
        assert forall|name: Seq<char>| #[trigger] last_row(c, name) == last_row(d, name) by {
            if name == a.last().source {
                lemma_last_row(c, name);
                lemma_last_row(d, name);
                assert forall|k: int| 0 <= k < c.len() implies (#[trigger] c[k]).source != name by {
                    assert(name_before(a[k].source, a[a.len() - 1].source));
                    lemma_names_are_ordered(a[k].source, name);
                }
                assert forall|k: int| 0 <= k < d.len() implies (#[trigger] d[k]).source != name by {
                    assert(name_before(b[k].source, b[b.len() - 1].source));
                    lemma_names_are_ordered(b[k].source, name);
                }
            } else {
                assert(last_row(a, name) == last_row(b, name));
            }
        }
        law_ordered_rows_are_determined(c, d);
        assert(a =~= c.push(a.last()));
        assert(b =~= d.push(b.last()));
    }
}

proof fn lemma_prefix_in_order(rows: Seq<QuoteModel>)
    requires
        in_order(rows),
        rows.len() > 0,
    ensures
        in_order(rows.drop_last()),
{
    let before = rows.drop_last();
    assert forall|i: int, j: int| 0 <= i < j < before.len() implies name_before(
        (#[trigger] before[i]).source,
        (#[trigger] before[j]).source,
    ) by {
        assert(before[i] == rows[i] && before[j] == rows[j]);
    }
}

fn rank_of(name: &str) -> (place: usize)
    ensures
        place == rank(name@),
{
    if same_text(name, "CoinGecko") {
        0
    } else if same_text(name, "Coinbase") {
        1
    } else if same_text(name, "Kraken") {
        2
    } else if same_text(name, "Gemini") {
        3
    } else {
        SOURCE_COUNT
    }
}

pub(crate) fn is_name_before(a: &str, b: &str) -> (before: bool)
    ensures
        before == name_before(a@, b@),
{
    let a_rank = rank_of(a);
    let b_rank = rank_of(b);
    a_rank < b_rank || (a_rank == b_rank && is_text_before(a, b))
}

/// Puts a quote into an ordered list, in place of the one under its name if there is one.
fn upsert(quotes: &mut Vec<StoredQuote>, quote: StoredQuote)
    requires
        in_order(quote_models(old(quotes)@)),
    ensures
        in_order(quote_models(final(quotes)@)),
        forall|name: Seq<char>| #[trigger]
            last_row(quote_models(final(quotes)@), name) == if name == quote.source@ {
                Some(quote@)
            } else {
                last_row(quote_models(old(quotes)@), name)
            },
{
    let ghost before = quote_models(quotes@);
    let ghost added = quote@;
    let mut i: usize = 0;
    while i < quotes.len() && is_name_before(quotes[i].source.as_str(), quote.source.as_str())
        invariant
            i <= quotes@.len(),
            *quotes == *old(quotes),
            before == quote_models(quotes@),
            added == quote@,
            forall|j: int| 0 <= j < i ==> name_before((#[trigger] before[j]).source, added.source),
        decreases quotes@.len() - i,
    {
        i += 1;
    }
    let replaces = i < quotes.len() && same_text(
        quotes[i].source.as_str(),
        quote.source.as_str(),
    );
    assert forall|j: int| i < j < before.len() || (j == i && i < before.len() && !replaces) implies
        name_before(added.source, (#[trigger] before[j]).source) by {
        lemma_names_are_ordered(before[i as int].source, added.source);
        if j > i {
            assert(name_before(before[i as int].source, before[j].source));
            if !replaces {
                lemma_name_order_is_transitive(
                    added.source,
                    before[i as int].source,
                    before[j].source,
                );
            }
        }
    }
    if replaces {
        quotes.set(i, quote);
        let ghost after = quote_models(quotes@);
        assert(after =~= before.update(i as int, added));
    } else {
        quotes.insert(i, quote);
        let ghost after = quote_models(quotes@);
        assert(after =~= before.insert(i as int, added));
    }
    proof {
        let after = quote_models(quotes@);
        let shift = if replaces {
            0int
        } else {
            1int
        };
        assert(forall|j: int| 0 <= j < i ==> #[trigger] after[j] == before[j]);
        assert(after[i as int] == added);
        assert(forall|j: int| i < j < after.len() ==> #[trigger] after[j] == before[j - shift]);
        assert(in_order(after)) by {
            assert forall|j: int, k: int| 0 <= j < k < after.len() implies name_before(
                (#[trigger] after[j]).source,
                (#[trigger] after[k]).source,
            ) by {
                if j < i {
                    assert(after[j] == before[j]);
                    if k > i {
                        assert(after[k] == before[k - shift]);
                    }
                } else {
                    assert(after[k] == before[k - shift]);
                    if j > i {
                        assert(after[j] == before[j - shift]);
                    }
                }
            }
        }
        assert forall|name: Seq<char>| #[trigger]
            last_row(after, name) == if name == added.source {
                Some(added)
            } else {
                last_row(before, name)
            } by {
            if name == added.source {
                lemma_ordered_rows_are_last(after, i as int);
            } else {
                lemma_last_row(before, name);
                lemma_last_row(after, name);
                if last_row(before, name) is Some {
                    let k = choose|k: int|
                        0 <= k < before.len() && #[trigger] before[k] == last_row(before, name)->0;
                    let j = if k < i {
                        k
                    } else {
                        k + shift
                    };
                    assert(after[j] == before[k]);
                    lemma_ordered_rows_are_last(after, j);
                } else if last_row(after, name) is Some {
                    let j = choose|j: int|
                        0 <= j < after.len() && #[trigger] after[j] == last_row(after, name)->0;
                    assert(j != i);
                    let k = if j < i {
                        j
                    } else {
                        j - shift
                    };
                    assert(before[k].source == name);
                }
            }
        }
    }
}

/// What becomes of a name when new quotes are merged into stored ones.
pub open spec fn merged_row(
    stored: Seq<QuoteModel>,
    refreshed: Seq<QuoteModel>,
    name: Seq<char>,
) -> Option<QuoteModel> {
    match last_row(refreshed, name) {
        Some(row) => Some(row),
        None => last_row(usable_rows(stored), name),
    }
}

/// Whether rows are the merge of new quotes into stored ones: under each name the new quote, else
/// the stored one with a usable price, in the order of the names.
pub open spec fn merges(
    rows: Seq<QuoteModel>,
    stored: Seq<QuoteModel>,
    refreshed: Seq<QuoteModel>,
) -> bool {
    &&& in_order(rows)
    &&& forall|name: Seq<char>| #[trigger]
        last_row(rows, name) == merged_row(stored, refreshed, name)
}

/// The stored quotes of an optional snapshot.
pub open spec fn stored_rows(snapshot: Option<SnapshotModel>) -> Seq<QuoteModel> {
    match snapshot {
        Some(snapshot) => snapshot.sources,
        None => Seq::empty(),
    }
}

/// What an optional reference to a snapshot leads to.
pub open spec fn referenced_snapshot(snapshot: Option<&SnapshotRecord>) -> Option<SnapshotModel> {
    match snapshot {
        Some(snapshot) => Some(snapshot@),
        None => None,
    }
}

/// Merges new quotes into those of the latest snapshot.
pub fn merge_snapshot_sources(
    latest_snapshot: Option<&SnapshotRecord>,
    refreshed: &Vec<StoredQuote>,
) -> (sources: Vec<StoredQuote>)
    ensures
        merges(
            quote_models(sources@),
            stored_rows(referenced_snapshot(latest_snapshot)),
            quote_models(refreshed@),
        ),
{
    let mut sources: Vec<StoredQuote> = Vec::new();
    let ghost stored = stored_rows(referenced_snapshot(latest_snapshot));
    if let Some(snapshot) = latest_snapshot {
        let quotes = &snapshot.sources;
        let ghost rows = quote_models(quotes@);
        assert(rows == stored);
        let mut i: usize = 0;
        while i < quotes.len()
            invariant
                i <= quotes@.len(),
                rows == quote_models(quotes@),
                in_order(quote_models(sources@)),
                forall|name: Seq<char>| #[trigger]
                    last_row(quote_models(sources@), name) == last_row(
                        usable_rows(rows.take(i as int)),
                        name,
                    ),
            decreases quotes@.len() - i,
        {
            let quote = &quotes[i];
            let ghost sources_before = quote_models(sources@);
            assert(rows.take(i + 1).drop_last() =~= rows.take(i as int));
            assert(rows.take(i + 1).last() == quote@);
            if quote.price_usd.is_usable() {
                upsert(&mut sources, quote.clone());
                proof {
                    let shorter = usable_rows(rows.take(i as int));
                    let longer = usable_rows(rows.take(i + 1));
                    assert(longer.drop_last() =~= shorter);
                }
            }
            i += 1;
        }
        assert(rows.take(i as int) =~= rows);
    }
    assert forall|name: Seq<char>| #[trigger]
        last_row(quote_models(sources@), name) == last_row(usable_rows(stored), name) by {}
    let ghost news = quote_models(refreshed@);
    let mut i: usize = 0;
    while i < refreshed.len()
        invariant
            i <= refreshed@.len(),
            news == quote_models(refreshed@),
            in_order(quote_models(sources@)),
            forall|name: Seq<char>| #[trigger]
                last_row(quote_models(sources@), name) == merged_row(
                    stored,
                    news.take(i as int),
                    name,
                ),
        decreases refreshed@.len() - i,
    {
        assert(news.take(i + 1).drop_last() =~= news.take(i as int));
        assert(news.take(i + 1).last() == refreshed@[i as int]@);
        upsert(&mut sources, refreshed[i].clone());
        i += 1;
    }
    assert(news.take(i as int) =~= news);
    sources
}

/// A provider's answer within one refresh.
#[derive(Debug, PartialEq)]
pub struct ProviderAttempt {
    pub source: UpstreamSource,
    /// When the request started.
    pub attempted_at_unix: i64,
    /// When the answer was received and validated.
    pub completed_at_unix: i64,
    pub result: Result<Price, ProviderError>,
}

/// The quote of a successful answer.
pub open spec fn quote_of(attempt: ProviderAttempt) -> QuoteModel {
    QuoteModel {
        source: source_name(attempt.source),
        price_usd: attempt.result->Ok_0,
        last_success_at_unix: Some(attempt.completed_at_unix),
        quote_kind: kind_of_source(attempt.source),
    }
}

/// The health record of an answer.
pub open spec fn health_of(attempt: ProviderAttempt) -> HealthModel {
    HealthModel {
        source: source_name(attempt.source),
        last_attempt: match attempt.result {
            Ok(_) => AttemptModel::Success(attempt.attempted_at_unix),
            Err(error) => AttemptModel::Failure(
                attempt.attempted_at_unix,
                recorded_failure(error),
            ),
        },
    }
}

/// The quotes of the successful answers, in order.
pub open spec fn fetched_quotes(attempts: Seq<ProviderAttempt>) -> Seq<QuoteModel>
    decreases attempts.len(),
{
    if attempts.len() == 0 {
        Seq::empty()
    } else if attempts.last().result is Ok {
        fetched_quotes(attempts.drop_last()).push(quote_of(attempts.last()))
    } else {
        fetched_quotes(attempts.drop_last())
    }
}

/// The failures among the answers, in order.
pub open spec fn failures_in(attempts: Seq<ProviderAttempt>) -> Seq<ProviderError>
    decreases attempts.len(),
{
    if attempts.len() == 0 {
        Seq::empty()
    } else {
        match attempts.last().result {
            Ok(_) => failures_in(attempts.drop_last()),
            Err(error) => failures_in(attempts.drop_last()).push(error),
        }
    }
}

/// The health records of the answers, in order.
pub open spec fn health_records(attempts: Seq<ProviderAttempt>) -> Seq<HealthModel> {
    Seq::new(attempts.len(), |i: int| health_of(attempts[i]))
}

/// What failures tell clients, in order.
pub open spec fn failure_texts(failures: Seq<ProviderError>) -> Seq<Seq<char>> {
    Seq::new(failures.len(), |i: int| failure_text(failures[i]))
}

/// How a snapshot names the providers that it has new quotes of.
pub open spec fn refreshed_label(quotes: Seq<QuoteModel>) -> Seq<char> {
    if quotes.len() == 1 {
        quotes[0].source
    } else if quotes.len() == SOURCE_COUNT {
        "all"@
    } else {
        "partial"@
    }
}

/// What one refresh saves.
#[derive(Debug, PartialEq)]
pub struct RefreshRecords {
    /// The merged quotes, where any provider gave a new one. The average and the spread are still
    /// to be filled in.
    pub snapshot: Option<SnapshotRecord>,
    /// One record for each provider that was asked.
    pub health: Vec<ProviderHealth>,
    pub failures: Vec<ProviderError>,
}

/// Whether records are those of the answers, on top of the latest snapshot.
pub open spec fn records(
    saved: RefreshRecords,
    latest: Option<SnapshotModel>,
    attempts: Seq<ProviderAttempt>,
    now_unix: i64,
) -> bool {
    let quotes = fetched_quotes(attempts);
    &&& saved.failures@ == failures_in(attempts)
    &&& health_models(saved.health@) == health_records(attempts)
    &&& match saved.snapshot {
        Some(snapshot) => {
            &&& quotes.len() > 0
            &&& snapshot@.fetched_at_unix == now_unix
            &&& merges(snapshot@.sources, stored_rows(latest), quotes)
            &&& snapshot@.average_price is None
            &&& snapshot@.spread is None
            &&& snapshot@.warnings == failure_texts(failures_in(attempts))
            &&& snapshot@.refreshed_source == Some(refreshed_label(quotes))
        },
        None => quotes.len() == 0,
    }
}

/// Whether every failure among the answers can be shown.
pub open spec fn presentable_failures(attempts: Seq<ProviderAttempt>) -> bool {
    forall|i: int|
        0 <= i < attempts.len() ==> ((#[trigger] attempts[i]).result matches Err(error)
            ==> error.presentable())
}

/// The failures among presentable answers are presentable.
pub proof fn lemma_failures_are_presentable(attempts: Seq<ProviderAttempt>)
    requires
        presentable_failures(attempts),
    ensures
        forall|i: int|
            0 <= i < failures_in(attempts).len() ==> (
            #[trigger] failures_in(attempts)[i]).presentable(),
    decreases attempts.len(),
{
    if attempts.len() > 0 {
        let before = attempts.drop_last();
        assert forall|i: int| 0 <= i < before.len() implies ((
        #[trigger] before[i]).result matches Err(error) ==> error.presentable()) by {
            assert(before[i] == attempts[i]);
        }
        lemma_failures_are_presentable(before);
        let last = attempts[attempts.len() - 1];
        let fewer = failures_in(before);
        let all = failures_in(attempts);
        assert forall|i: int| 0 <= i < all.len() implies (#[trigger] all[i]).presentable() by {
            if i < fewer.len() {
                assert(all[i] == fewer[i]);
            } else {
                assert(last.result matches Err(error) && error == all[i]);
            }
        }
    }
}

/// What one refresh saves: health for every provider that was asked, and the merged quotes where
/// any provider gave a new one.
pub fn refresh_records(
    latest_snapshot: Option<&SnapshotRecord>,
    attempts: &Vec<ProviderAttempt>,
    now_unix: i64,
) -> (saved: RefreshRecords)
    requires
        presentable_failures(attempts@),
    ensures
        records(saved, referenced_snapshot(latest_snapshot), attempts@, now_unix),
{
    let mut quotes: Vec<StoredQuote> = Vec::new();
    let mut failures: Vec<ProviderError> = Vec::new();
    let mut warnings: Vec<String> = Vec::new();
    let mut health: Vec<ProviderHealth> = Vec::new();
    let mut i: usize = 0;
    assert(quote_models(quotes@) =~= fetched_quotes(attempts@.take(0)));
    while i < attempts.len()
        invariant
            i <= attempts@.len(),
            presentable_failures(attempts@),
            quote_models(quotes@) == fetched_quotes(attempts@.take(i as int)),
            failures@ == failures_in(attempts@.take(i as int)),
            warnings@.len() == failures@.len(),
            forall|j: int|
                0 <= j < warnings@.len() ==> (#[trigger] warnings@[j])@ == failure_text(
                    failures@[j],
                ),
            health@.len() == i,
            forall|j: int| 0 <= j < i ==> (#[trigger] health@[j])@ == health_of(attempts@[j]),
        decreases attempts@.len() - i,
    {
        let attempt = &attempts[i];
        assert(attempts@.take(i + 1).drop_last() =~= attempts@.take(i as int));
        assert(attempts@.take(i + 1).last() == attempt);
        let source = attempt.source.name().to_owned();
        match &attempt.result {
            Ok(price_usd) => {
                let ghost before = quotes@;
                let quote = StoredQuote {
                    source: attempt.source.name().to_owned(),
                    price_usd: *price_usd,
                    last_success_at_unix: Some(attempt.completed_at_unix),
                    quote_kind: QuoteKind::of_source(attempt.source),
                };
                let ghost model = quote@;
                quotes.push(quote);
                assert(quote_models(quotes@) =~= quote_models(before).push(model));
                health.push(
                    ProviderHealth {
                        source,
                        last_attempt: LastAttempt::Success {
                            attempted_at_unix: attempt.attempted_at_unix,
                        },
                    },
                );
            },
            Err(error) => {
                warnings.push(error.message());
                failures.push(error.copy());
                health.push(
                    ProviderHealth {
                        source,
                        last_attempt: LastAttempt::Failure {
                            attempted_at_unix: attempt.attempted_at_unix,
                            error: error.source_error(),
                        },
                    },
                );
            },
        }
        i += 1;
    }
    assert(attempts@.take(i as int) =~= attempts@);
    assert(health_models(health@) =~= health_records(attempts@));
    assert(text_models(warnings@) =~= failure_texts(failures@));
    if quotes.len() == 0 {
        return RefreshRecords { snapshot: None, health, failures };
    }
    let label = if quotes.len() == 1 {
        quotes[0].source.clone()
    } else if quotes.len() == SOURCE_COUNT {
        "all".to_owned()
    } else {
        "partial".to_owned()
    };
    let sources = merge_snapshot_sources(latest_snapshot, &quotes);
    let snapshot = SnapshotRecord {
        fetched_at_unix: now_unix,
        sources,
        average_price: None,
        spread: None,
        warnings,
        refreshed_source: Some(label),
    };
    RefreshRecords { snapshot: Some(snapshot), health, failures }
}

/// The last answer of a provider.
pub open spec fn last_answer(attempts: Seq<ProviderAttempt>, source: UpstreamSource) -> Option<
    AttemptResult,
>
    decreases attempts.len(),
{
    if attempts.len() == 0 {
        None
    } else if attempts.last().source == source {
        Some(
            match attempts.last().result {
                Ok(_) => AttemptResult::Succeeded,
                Err(error) => AttemptResult::Failed { retry_after: error.wish() },
            },
        )
    } else {
        last_answer(attempts.drop_last(), source)
    }
}

/// How each provider answered.
pub fn attempt_results(attempts: &Vec<ProviderAttempt>) -> (results: [Option<AttemptResult>; 4])
    ensures
        forall|source: UpstreamSource|
            #![trigger results@[source.position() as int]]
            results@[source.position() as int] == last_answer(attempts@, source),
{
    let mut results: [Option<AttemptResult>; 4] = [None, None, None, None];
    let mut i: usize = 0;
    while i < attempts.len()
        invariant
            i <= attempts@.len(),
            forall|source: UpstreamSource|
                #![trigger results@[source.position() as int]]
                results@[source.position() as int] == last_answer(
                    attempts@.take(i as int),
                    source,
                ),
        decreases attempts@.len() - i,
    {
        let attempt = &attempts[i];
        assert(attempts@.take(i + 1).drop_last() =~= attempts@.take(i as int));
        assert(attempts@.take(i + 1).last() == attempt);
        let index = attempt.source.index();
        results[index] = Some(
            match &attempt.result {
                Ok(_) => AttemptResult::Succeeded,
                Err(error) => AttemptResult::Failed { retry_after: error.retry_after() },
            },
        );
        i += 1;
    }
    assert(attempts@.take(i as int) =~= attempts@);
    results
}

/// A refresh in which a provider gave no new quote keeps its stored one, with its observation
/// time and kind, where its price is usable.
pub proof fn law_other_providers_keep_their_quotes(
    saved: RefreshRecords,
    latest: Option<SnapshotModel>,
    attempts: Seq<ProviderAttempt>,
    now_unix: i64,
    name: Seq<char>,
)
    requires
        records(saved, latest, attempts, now_unix),
        last_row(fetched_quotes(attempts), name) is None,
    ensures
        saved.snapshot matches Some(snapshot) ==> last_row(snapshot@.sources, name) == last_row(
            usable_rows(stored_rows(latest)),
            name,
        ),
{
}

/// A refresh takes over the new quote of each provider that gave one, under the time at which it
/// was received.
pub proof fn law_new_quotes_replace_old_ones(
    saved: RefreshRecords,
    latest: Option<SnapshotModel>,
    attempts: Seq<ProviderAttempt>,
    now_unix: i64,
    i: int,
)
    requires
        records(saved, latest, attempts, now_unix),
        0 <= i < attempts.len(),
        attempts[i].result is Ok,
        forall|j: int| i < j < attempts.len() ==> (#[trigger] attempts[j]).source
            != attempts[i].source,
    ensures
        saved.snapshot matches Some(snapshot) && last_row(
            snapshot@.sources,
            source_name(attempts[i].source),
        ) == Some(quote_of(attempts[i])),
{
    lemma_fetched(attempts, i);
    let name = source_name(attempts[i].source);
    assert(merged_row(stored_rows(latest), fetched_quotes(attempts), name) is Some);
    lemma_last_row(fetched_quotes(attempts), name);
    let snapshot = saved.snapshot->0;
    assert(last_row(snapshot@.sources, name) == merged_row(
        stored_rows(latest),
        fetched_quotes(attempts),
        name,
    ));
}

proof fn lemma_fetched(attempts: Seq<ProviderAttempt>, i: int)
    requires
        0 <= i < attempts.len(),
        attempts[i].result is Ok,
        forall|j: int| i < j < attempts.len() ==> (#[trigger] attempts[j]).source
            != attempts[i].source,
    ensures
        last_row(fetched_quotes(attempts), source_name(attempts[i].source)) == Some(
            quote_of(attempts[i]),
        ),
        fetched_quotes(attempts).len() > 0,
    decreases attempts.len(),
{
    let before = attempts.drop_last();
    let quotes = fetched_quotes(attempts);
    if i == attempts.len() - 1 {
        assert(quotes.last() == quote_of(attempts[i]));
    } else {
        assert(before[i] == attempts[i]);
        assert forall|j: int| i < j < before.len() implies (#[trigger] before[j]).source
            != before[i].source by {
            assert(before[j] == attempts[j]);
        }
        lemma_fetched(before, i);
        if attempts.last().result is Ok {
            law_names_are_distinct(attempts.last().source, attempts[i].source);
            assert(attempts[attempts.len() - 1] == attempts.last());
            assert(quotes.drop_last() =~= fetched_quotes(before));
        }
    }
}

/// Where every provider fails, the snapshot is left alone and only health is saved.
pub proof fn law_total_failure_saves_health_only(
    saved: RefreshRecords,
    latest: Option<SnapshotModel>,
    attempts: Seq<ProviderAttempt>,
    now_unix: i64,
)
    requires
        records(saved, latest, attempts, now_unix),
        forall|i: int| 0 <= i < attempts.len() ==> (#[trigger] attempts[i]).result is Err,
    ensures
        saved.snapshot is None,
        health_models(saved.health@) == health_records(attempts),
        saved.failures@.len() == attempts.len(),
{
    lemma_all_failed(attempts);
}

proof fn lemma_all_failed(attempts: Seq<ProviderAttempt>)
    requires
        forall|i: int| 0 <= i < attempts.len() ==> (#[trigger] attempts[i]).result is Err,
    ensures
        fetched_quotes(attempts).len() == 0,
        failures_in(attempts).len() == attempts.len(),
    decreases attempts.len(),
{
    if attempts.len() > 0 {
        let before = attempts.drop_last();
        assert(attempts[attempts.len() - 1].result is Err);
        assert forall|i: int| 0 <= i < before.len() implies (
        #[trigger] before[i]).result is Err by {
            assert(before[i] == attempts[i]);
        }
        lemma_all_failed(before);
    }
}

/// A merge holds usable prices only, where the new quotes do: unusable stored rows are left out.
pub proof fn law_merges_hold_usable_prices(
    rows: Seq<QuoteModel>,
    stored: Seq<QuoteModel>,
    refreshed: Seq<QuoteModel>,
)
    requires
        merges(rows, stored, refreshed),
        forall|i: int| 0 <= i < refreshed.len() ==> (#[trigger] refreshed[i]).price_usd.usable(),
    ensures
        forall|i: int| 0 <= i < rows.len() ==> (#[trigger] rows[i]).price_usd.usable(),
{
    assert forall|i: int| 0 <= i < rows.len() implies (#[trigger] rows[i]).price_usd.usable() by {
        lemma_ordered_rows_are_last(rows, i);
        let name = rows[i].source;
        lemma_last_row(refreshed, name);
        lemma_last_row(usable_rows(stored), name);
        lemma_usable_rows(stored);
        assert(merged_row(stored, refreshed, name) == Some(rows[i]));
    }
}

proof fn lemma_usable_rows(rows: Seq<QuoteModel>)
    ensures
        forall|i: int|
            0 <= i < usable_rows(rows).len() ==> (
            #[trigger] usable_rows(rows)[i]).price_usd.usable(),
    decreases rows.len(),
{
    if rows.len() > 0 {
        lemma_usable_rows(rows.drop_last());
    }
}

/// A stored quote with a usable price stays in the merge, as it is, where no later stored quote of
/// its name has a usable price and no new quote bears its name.
pub proof fn law_stored_quotes_are_kept(
    rows: Seq<QuoteModel>,
    stored: Seq<QuoteModel>,
    refreshed: Seq<QuoteModel>,
    i: int,
)
    requires
        merges(rows, stored, refreshed),
        0 <= i < stored.len(),
        stored[i].price_usd.usable(),
        forall|j: int|
            i < j < stored.len() && (#[trigger] stored[j]).source == stored[i].source
                ==> !stored[j].price_usd.usable(),
        forall|k: int| 0 <= k < refreshed.len() ==> (#[trigger] refreshed[k]).source
            != stored[i].source,
    ensures
        rows.contains(stored[i]),
{
    let name = stored[i].source;
    lemma_last_usable_row(stored, i);
    lemma_last_row(refreshed, name);
    assert(last_row(refreshed, name) is None);
    assert(last_row(rows, name) == merged_row(stored, refreshed, name));
    lemma_last_row(rows, name);
}

proof fn lemma_last_usable_row(rows: Seq<QuoteModel>, i: int)
    requires
        0 <= i < rows.len(),
        rows[i].price_usd.usable(),
        forall|j: int|
            i < j < rows.len() && (#[trigger] rows[j]).source == rows[i].source
                ==> !rows[j].price_usd.usable(),
    ensures
        last_row(usable_rows(rows), rows[i].source) == Some(rows[i]),
    decreases rows.len(),
{
    let before = rows.drop_last();
    let usable = usable_rows(rows);
    if rows.last().price_usd.usable() {
        assert(usable.drop_last() =~= usable_rows(before));
    }
    if i < rows.len() - 1 {
        assert forall|j: int|
            i < j < before.len() && (#[trigger] before[j]).source == before[i].source
                implies !before[j].price_usd.usable() by {
            assert(before[j] == rows[j]);
        }
        lemma_last_usable_row(before, i);
        assert(rows[rows.len() - 1] == rows.last());
    }
}

/// The last new quote of each name is in the merge, as it is.
pub proof fn law_new_quotes_are_taken_over(
    rows: Seq<QuoteModel>,
    stored: Seq<QuoteModel>,
    refreshed: Seq<QuoteModel>,
    i: int,
)
    requires
        merges(rows, stored, refreshed),
        0 <= i < refreshed.len(),
        forall|j: int| i < j < refreshed.len() ==> (#[trigger] refreshed[j]).source
            != refreshed[i].source,
    ensures
        rows.contains(refreshed[i]),
{
    let name = refreshed[i].source;
    lemma_row_without_later_ones(refreshed, i);
    assert(last_row(rows, name) == merged_row(stored, refreshed, name));
    lemma_last_row(rows, name);
}

proof fn lemma_row_without_later_ones(rows: Seq<QuoteModel>, i: int)
    requires
        0 <= i < rows.len(),
        forall|j: int| i < j < rows.len() ==> (#[trigger] rows[j]).source != rows[i].source,
    ensures
        last_row(rows, rows[i].source) == Some(rows[i]),
    decreases rows.len(),
{
    if i < rows.len() - 1 {
        let before = rows.drop_last();
        assert forall|j: int| i < j < before.len() implies (#[trigger] before[j]).source
            != before[i].source by {
            assert(before[j] == rows[j]);
        }
        assert(rows[rows.len() - 1] == rows.last());
        lemma_row_without_later_ones(before, i);
    }
}

/// A merge holds nothing but new quotes, and stored ones with a usable price under whose name there
/// is no new one; each name once.
pub proof fn law_merges_hold_nothing_else(
    rows: Seq<QuoteModel>,
    stored: Seq<QuoteModel>,
    refreshed: Seq<QuoteModel>,
    i: int,
)
    requires
        merges(rows, stored, refreshed),
        0 <= i < rows.len(),
    ensures
        refreshed.contains(rows[i]) || {
            &&& stored.contains(rows[i])
            &&& rows[i].price_usd.usable()
            &&& forall|k: int| 0 <= k < refreshed.len() ==> (#[trigger] refreshed[k]).source
                != rows[i].source
        },
        forall|j: int|
            0 <= j < rows.len() && (#[trigger] rows[j]).source == rows[i].source ==> j == i,
{
    let name = rows[i].source;
    lemma_ordered_rows_are_last(rows, i);
    assert(merged_row(stored, refreshed, name) == Some(rows[i]));
    lemma_last_row(refreshed, name);
    lemma_last_row(usable_rows(stored), name);
    lemma_usable_rows_are_rows(stored);
    assert forall|j: int|
        0 <= j < rows.len() && (#[trigger] rows[j]).source == name implies j == i by {
        lemma_names_are_ordered(name, name);
        if j < i {
            assert(name_before(rows[j].source, rows[i].source));
        } else if i < j {
            assert(name_before(rows[i].source, rows[j].source));
        }
    }
}

proof fn lemma_usable_rows_are_rows(rows: Seq<QuoteModel>)
    ensures
        forall|i: int|
            0 <= i < usable_rows(rows).len() ==> {
                &&& rows.contains(#[trigger] usable_rows(rows)[i])
                &&& usable_rows(rows)[i].price_usd.usable()
            },
    decreases rows.len(),
{
    if rows.len() > 0 {
        let before = rows.drop_last();
        lemma_usable_rows_are_rows(before);
        assert forall|i: int| 0 <= i < usable_rows(rows).len() implies rows.contains(
            #[trigger] usable_rows(rows)[i],
        ) && usable_rows(rows)[i].price_usd.usable() by {
            if i < usable_rows(before).len() {
                let row = usable_rows(before)[i];
                assert(usable_rows(rows)[i] == row);
                assert(before.contains(row));
                let j = choose|j: int| 0 <= j < before.len() && before[j] == row;
                assert(rows[j] == row);
            } else {
                assert(rows[rows.len() - 1] == rows.last());
            }
        }
    }
}

/// The order of names: configured providers stand in configured order, before all others; the
/// others stand in the order of their characters.
pub proof fn law_names_stand_in_order(
    first: UpstreamSource,
    second: UpstreamSource,
    a: Seq<char>,
    b: Seq<char>,
)
    requires
        forall|source: UpstreamSource| #[trigger] source_name(source) != a,
        forall|source: UpstreamSource| #[trigger] source_name(source) != b,
    ensures
        name_before(source_name(first), source_name(second)) <==> first.position()
            < second.position(),
        name_before(source_name(first), a),
        !name_before(a, source_name(first)),
        name_before(a, b) <==> text_before(a, b),
{
    law_names_are_distinct(first, UpstreamSource::CoinGecko);
    law_names_are_distinct(first, UpstreamSource::Coinbase);
    law_names_are_distinct(first, UpstreamSource::Kraken);
    law_names_are_distinct(first, UpstreamSource::Gemini);
    law_names_are_distinct(second, UpstreamSource::CoinGecko);
    law_names_are_distinct(second, UpstreamSource::Coinbase);
    law_names_are_distinct(second, UpstreamSource::Kraken);
    law_names_are_distinct(second, UpstreamSource::Gemini);
    lemma_names_are_ordered(source_name(first), source_name(second));
    assert(source_name(UpstreamSource::CoinGecko) != a && source_name(UpstreamSource::CoinGecko)
        != b);
    assert(source_name(UpstreamSource::Coinbase) != a && source_name(UpstreamSource::Coinbase)
        != b);
    assert(source_name(UpstreamSource::Kraken) != a && source_name(UpstreamSource::Kraken) != b);
    assert(source_name(UpstreamSource::Gemini) != a && source_name(UpstreamSource::Gemini) != b);
}

/// The rows of a merge stand in the order of their names.
pub proof fn law_merges_are_ordered(
    rows: Seq<QuoteModel>,
    stored: Seq<QuoteModel>,
    refreshed: Seq<QuoteModel>,
    i: int,
    j: int,
)
    requires
        merges(rows, stored, refreshed),
        0 <= i < j < rows.len(),
    ensures
        name_before(rows[i].source, rows[j].source),
{
}

/// The answers that are prices.
pub open spec fn priced(attempts: Seq<ProviderAttempt>) -> Seq<ProviderAttempt> {
    attempts.filter(|attempt: ProviderAttempt| attempt.result is Ok)
}

/// The answers that are failures.
pub open spec fn failed(attempts: Seq<ProviderAttempt>) -> Seq<ProviderAttempt> {
    attempts.filter(|attempt: ProviderAttempt| attempt.result is Err)
}

/// Each answer with a price becomes a quote, in order: under the provider's name, with its price,
/// the time at which it was received and what the provider's number means. Each other answer
/// becomes a failure, in order.
pub proof fn law_answers_become_quotes_or_failures(attempts: Seq<ProviderAttempt>)
    ensures
        fetched_quotes(attempts).len() == priced(attempts).len(),
        forall|i: int|
            0 <= i < priced(attempts).len() ==> {
                let attempt = #[trigger] priced(attempts)[i];
                let quote = fetched_quotes(attempts)[i];
                &&& quote.source == source_name(attempt.source)
                &&& attempt.result == Ok::<Price, ProviderError>(quote.price_usd)
                &&& quote.last_success_at_unix == Some(attempt.completed_at_unix)
                &&& quote.quote_kind == match attempt.source {
                    UpstreamSource::CoinGecko => QuoteKind::Aggregate,
                    UpstreamSource::Coinbase => QuoteKind::Spot,
                    UpstreamSource::Kraken => QuoteKind::LastTrade,
                    UpstreamSource::Gemini => QuoteKind::Bid,
                }
            },
        failures_in(attempts).len() == failed(attempts).len(),
        forall|i: int|
            0 <= i < failed(attempts).len() ==> (#[trigger] failed(attempts)[i]).result
                == Err::<Price, ProviderError>(failures_in(attempts)[i]),
        priced(attempts).len() + failed(attempts).len() == attempts.len(),
    decreases attempts.len(),
{
    reveal(Seq::filter);
    if attempts.len() > 0 {
        law_answers_become_quotes_or_failures(attempts.drop_last());
    }
}

/// What a refresh saves. A snapshot is saved where any provider gave a price: at the time of
/// saving, with the merged quotes, what each failed provider told, and the name of the one provider
/// with a price, or "all" for all of them, or else "partial".
pub proof fn law_refreshes_save_what_was_answered(
    saved: RefreshRecords,
    latest: Option<SnapshotModel>,
    attempts: Seq<ProviderAttempt>,
    now_unix: i64,
)
    requires
        records(saved, latest, attempts, now_unix),
    ensures
        saved.snapshot is Some <==> priced(attempts).len() > 0,
        saved.failures@ == failures_in(attempts),
        saved.snapshot matches Some(snapshot) ==> {
            &&& snapshot.fetched_at_unix == now_unix
            &&& merges(
                quote_models(snapshot.sources@),
                match latest {
                    Some(latest) => latest.sources,
                    None => Seq::empty(),
                },
                fetched_quotes(attempts),
            )
            &&& snapshot.average_price is None
            &&& snapshot.spread is None
            &&& snapshot.warnings@.len() == failures_in(attempts).len()
            &&& forall|k: int|
                0 <= k < snapshot.warnings@.len() ==> (#[trigger] snapshot.warnings@[k])@
                    == failure_text(failures_in(attempts)[k])
            &&& snapshot.refreshed_source is Some
            &&& priced(attempts).len() == 1 ==> (snapshot.refreshed_source->0)@ == source_name(
                priced(attempts)[0].source,
            )
            &&& priced(attempts).len() == 4 ==> (snapshot.refreshed_source->0)@ == "all"@
            &&& priced(attempts).len() != 1 && priced(attempts).len() != 4 ==> (
            snapshot.refreshed_source->0)@ == "partial"@
        },
{
    law_answers_become_quotes_or_failures(attempts);
    if let Some(snapshot) = saved.snapshot {
        let texts = text_models(snapshot.warnings@);
        assert(snapshot@.warnings == texts);
        assert(texts.len() == snapshot.warnings@.len());
        assert forall|k: int| 0 <= k < snapshot.warnings@.len() implies (
        #[trigger] snapshot.warnings@[k])@ == failure_text(failures_in(attempts)[k]) by {
            assert(texts[k] == failure_texts(failures_in(attempts))[k]);
        }
        if priced(attempts).len() == 1 {
            let only = priced(attempts)[0];
            assert(fetched_quotes(attempts)[0].source == source_name(only.source));
        }
    }
}

/// Each provider that was asked gets a health record, in order: under its name, with the start of
/// the request, and with what clients may learn of a failure.
pub proof fn law_every_answer_is_recorded_as_health(
    saved: RefreshRecords,
    latest: Option<SnapshotModel>,
    attempts: Seq<ProviderAttempt>,
    now_unix: i64,
    i: int,
)
    requires
        records(saved, latest, attempts, now_unix),
        0 <= i < attempts.len(),
    ensures
        saved.health@.len() == attempts.len(),
        saved.health@[i].source@ == source_name(attempts[i].source),
        match attempts[i].result {
            Ok(_) => saved.health@[i].last_attempt@ == AttemptModel::Success(
                attempts[i].attempted_at_unix,
            ),
            Err(error) => {
                &&& saved.health@[i].last_attempt@ matches AttemptModel::Failure(time, recorded)
                &&& time == attempts[i].attempted_at_unix
                &&& recorded.message == failure_text(error)
                &&& recorded == recorded_failure(error)
            },
        },
{
    let models = health_models(saved.health@);
    assert(models.len() == saved.health@.len());
    assert(models[i] == health_records(attempts)[i]);
    assert(models[i] == saved.health@[i]@);
}

/// The schedule learns the last answer of each provider that was asked, with the delay that a
/// failed provider asked for, and nothing of the others.
pub proof fn law_the_last_answer_counts(
    attempts: Seq<ProviderAttempt>,
    source: UpstreamSource,
    i: int,
)
    ensures
        (forall|j: int| 0 <= j < attempts.len() ==> (#[trigger] attempts[j]).source != source)
            ==> last_answer(attempts, source) is None,
        0 <= i < attempts.len() && attempts[i].source == source && (forall|j: int|
            i < j < attempts.len() ==> (#[trigger] attempts[j]).source != source)
            ==> match attempts[i].result {
            Ok(_) => last_answer(attempts, source) == Some(AttemptResult::Succeeded),
            Err(error) => last_answer(attempts, source) == Some(
                AttemptResult::Failed {
                    retry_after: match error.kind {
                        ProviderErrorKind::Http { retry_after, .. } => retry_after,
                        _ => None,
                    },
                },
            ),
        },
    decreases attempts.len(),
{
    if attempts.len() > 0 {
        let before = attempts.drop_last();
        assert(attempts[attempts.len() - 1] == attempts.last());
        if attempts.last().source != source {
            law_the_last_answer_counts(before, source, i);
            if forall|j: int| 0 <= j < attempts.len() ==> (#[trigger] attempts[j]).source
                != source {
                assert forall|j: int| 0 <= j < before.len() implies (#[trigger] before[j]).source
                    != source by {
                    assert(before[j] == attempts[j]);
                }
            }
            if 0 <= i < attempts.len() && attempts[i].source == source && (forall|j: int|
                i < j < attempts.len() ==> (#[trigger] attempts[j]).source != source) {
                assert(before[i] == attempts[i]);
                assert forall|j: int| i < j < before.len() implies (#[trigger] before[j]).source
                    != source by {
                    assert(before[j] == attempts[j]);
                }
            }
        }
    }
}

/// New quotes are merged into those of the latest snapshot, where there is one, and else into none.
pub proof fn law_quotes_are_merged_into_the_latest_snapshot(snapshot: &SnapshotRecord)
    ensures
        stored_rows(referenced_snapshot(Some(snapshot))) == quote_models(snapshot.sources@),
        stored_rows(referenced_snapshot(None)).len() == 0,
{
}

} // verus!
