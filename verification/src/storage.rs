//! How snapshots and provider health are laid out in tables, and read back.
use crate::json::{
    decode_texts, denotes, encode_texts, json_list, json_list_text, unknown_variant, unknown_word,
};
use crate::models::source_contract::{
    category_for_text, category_text, category_words, health_models, kind_for_text,
    law_categories_are_read_from_their_texts, law_category_texts_are_distinct,
    law_kinds_are_read_from_their_texts, law_quote_kind_texts_are_distinct, quote_kind_text,
    quote_kind_words, quote_models, text_models, AttemptModel, ErrorCategory, HealthModel,
    LastAttempt, ProviderHealth, QuoteKind, QuoteModel, SourceError, SourceErrorModel, StoredQuote,
};
use crate::models::{copy_optional_text, optional_text, SnapshotModel, SnapshotRecord};
use crate::price::Price;
use crate::snapshots::{
    in_order, is_name_before, lemma_name_order_is_transitive, lemma_names_are_ordered, name_before,
};
use crate::sources::{all_sources, source_name, UpstreamSource, SOURCE_COUNT};
use crate::text::{append_signed, decimal, same_text, signed_decimal};
use vstd::prelude::*;
use vstd::seq_lib::{to_multiset_build, to_multiset_insert};

verus! {

/// The version of the table layout.
pub const SCHEMA_VERSION: i64 = 1;

/// What startup does with a database.
#[derive(Clone, Copy, Debug, PartialEq, Eq, Structural)]
pub enum SchemaAction {
    /// Bring an unversioned layout to the current version.
    Migrate,
    /// Leave the layout as it is.
    Keep,
}

/// What startup says of a layout that it does not know.
pub open spec fn unsupported_version_text(version: int) -> Seq<char> {
    "unsupported SQLite schema version "@ + signed_decimal(version) + "; supported version is "@
        + signed_decimal(SCHEMA_VERSION as int)
}

/// What startup does with a database of a version. A layout that is neither unversioned nor
/// current is refused.
pub fn schema_action(version: i64) -> (action: Result<SchemaAction, String>)
    ensures
        match action {
            Ok(SchemaAction::Migrate) => version == 0,
            Ok(SchemaAction::Keep) => version == SCHEMA_VERSION,
            Err(message) => {
                &&& version != 0 && version != SCHEMA_VERSION
                &&& message@ == unsupported_version_text(version as int)
            },
        },
{
    if version == 0 {
        Ok(SchemaAction::Migrate)
    } else if version == SCHEMA_VERSION {
        Ok(SchemaAction::Keep)
    } else {
        let mut message = "unsupported SQLite schema version ".to_owned();
        append_signed(&mut message, version);
        message.append("; supported version is ");
        append_signed(&mut message, SCHEMA_VERSION);
        Err(message)
    }
}

/// Whether a table still lacks a column.
pub fn lacks_column(columns: &Vec<String>, name: &str) -> (lacks: bool)
    ensures
        lacks == !text_models(columns@).contains(name@),
{
    let ghost texts = text_models(columns@);
    let mut i: usize = 0;
    while i < columns.len()
        invariant
            i <= columns@.len(),
            texts == text_models(columns@),
            forall|j: int| 0 <= j < i ==> #[trigger] texts[j] != name@,
        decreases columns@.len() - i,
    {
        assert(texts[i as int] == columns@[i as int]@);
        if same_text(columns[i].as_str(), name) {
            return false;
        }
        i += 1;
    }
    true
}

/// The health that a new database starts with: nothing is known of any configured provider.
pub fn initial_health() -> (health: Vec<ProviderHealth>)
    ensures
        health_models(health@) == unknown_health(),
{
    let mut health: Vec<ProviderHealth> = Vec::new();
    let mut place: usize = 0;
    while place < SOURCE_COUNT
        invariant
            place <= SOURCE_COUNT,
            health@.len() == place,
            forall|i: int|
                0 <= i < place ==> (#[trigger] health@[i])@ == unknown_health()[i],
        decreases SOURCE_COUNT - place,
    {
        health.push(
            ProviderHealth {
                source: UpstreamSource::at(place).name().to_owned(),
                last_attempt: LastAttempt::Unknown,
            },
        );
        place += 1;
    }
    assert(health_models(health@) =~= unknown_health());
    health
}

/// Unknown health of every configured provider, in configured order.
pub open spec fn unknown_health() -> Seq<HealthModel> {
    Seq::new(
        SOURCE_COUNT as nat,
        |i: int|
            HealthModel {
                source: source_name(all_sources()[i]),
                last_attempt: AttemptModel::Unknown,
            },
    )
}

/// What tells stored snapshots apart.
#[derive(Clone, Copy, Debug, PartialEq, Eq, Structural)]
pub struct SnapshotKey {
    pub id: i64,
    pub fetched_at_unix: i64,
}

/// Whether a snapshot is older than another: by its time, then by its number.
pub open spec fn older(a: SnapshotKey, b: SnapshotKey) -> bool {
    a.fetched_at_unix < b.fetched_at_unix || (a.fetched_at_unix == b.fetched_at_unix && a.id < b.id)
}

/// The number of the latest of the stored snapshots: the one that is kept and served.
pub fn latest_snapshot_id(keys: &Vec<SnapshotKey>) -> (latest: Option<i64>)
    ensures
        match latest {
            Some(id) => exists|i: int|
                0 <= i < keys@.len() && (#[trigger] keys@[i]).id == id && forall|j: int|
                    0 <= j < keys@.len() ==> !older(keys@[i], #[trigger] keys@[j]),
            None => keys@.len() == 0,
        },
{
    if keys.len() == 0 {
        return None;
    }
    let mut best: usize = 0;
    let mut i: usize = 1;
    while i < keys.len()
        invariant
            best < i <= keys@.len(),
            forall|j: int| 0 <= j < i ==> !older(keys@[best as int], #[trigger] keys@[j]),
        decreases keys@.len() - i,
    {
        let candidate = keys[i];
        let known = keys[best];
        if known.fetched_at_unix < candidate.fetched_at_unix || (known.fetched_at_unix
            == candidate.fetched_at_unix && known.id < candidate.id) {
            best = i;
        }
        i += 1;
    }
    Some(keys[best].id)
}

/// What is said of a column that is empty and must not be.
pub open spec fn empty_column_text(index: int, column: Seq<char>) -> Seq<char> {
    "Invalid column type Null at index: "@ + decimal(index as nat) + ", name: "@ + column
}

/// What is said of a text column that stands for nothing, with the reason.
pub open spec fn conversion_text(index: int, reason: Seq<char>) -> Seq<char> {
    "Conversion error from type Text at index: "@ + decimal(index as nat) + ", "@ + reason
}

/// What `rusqlite` says where an empty column is read as something else: the text of its
/// `Error::InvalidColumnType` for NULL, with the place and the name of the column.
#[verifier::external_body]
fn empty_column(index: usize, column: &str) -> (text: String)
    ensures
        text@ == empty_column_text(index as int, column@),
{
    rusqlite::Error::InvalidColumnType(index, column.to_owned(), rusqlite::types::Type::Null)
        .to_string()
}

/// What `rusqlite` says where a text column cannot be converted: the text of its
/// `Error::FromSqlConversionFailure` for text, with the place of the column and the reason. The
/// greatest index stands for an unknown place, which is worded differently.
#[verifier::external_body]
fn failed_conversion(index: usize, reason: String) -> (text: String)
    requires
        index < usize::MAX,
    ensures
        text@ == conversion_text(index as int, reason@),
{
    rusqlite::Error::FromSqlConversionFailure(index, rusqlite::types::Type::Text, reason.into())
        .to_string()
}

/// What `rusqlite` says of its `Error::InvalidQuery`, which stands for an outcome that is none.
#[verifier::external_body]
fn invalid_query() -> (text: String)
    ensures
        text@ == "Query is not read-only"@,
{
    rusqlite::Error::InvalidQuery.to_string()
}

/// The row of a snapshot.
#[derive(Debug, PartialEq)]
pub struct SnapshotRow {
    pub fetched_at_unix: i64,
    pub average_price: Option<Price>,
    pub spread: Option<Price>,
    pub warnings_json: String,
    pub refreshed_source: Option<String>,
}

/// The row of one quote.
#[derive(Debug, PartialEq)]
pub struct SourceRow {
    pub source: String,
    pub price_usd: Price,
    pub last_success_at_unix: Option<i64>,
    pub quote_kind: String,
}

/// What the row of a quote holds.
pub struct SourceRowModel {
    pub source: Seq<char>,
    pub price_usd: Price,
    pub last_success_at_unix: Option<i64>,
    pub quote_kind: Seq<char>,
}

impl View for SourceRow {
    type V = SourceRowModel;

    open spec fn view(&self) -> SourceRowModel {
        SourceRowModel {
            source: self.source@,
            price_usd: self.price_usd,
            last_success_at_unix: self.last_success_at_unix,
            quote_kind: self.quote_kind@,
        }
    }
}

/// What each row of a list holds.
pub open spec fn source_row_models(rows: Seq<SourceRow>) -> Seq<SourceRowModel> {
    Seq::new(rows.len(), |i: int| rows[i]@)
}

/// The row of a quote.
pub open spec fn row_for(quote: QuoteModel) -> SourceRowModel {
    SourceRowModel {
        source: quote.source,
        price_usd: quote.price_usd,
        last_success_at_unix: quote.last_success_at_unix,
        quote_kind: quote_kind_text(quote.quote_kind),
    }
}

/// The rows of quotes.
pub open spec fn rows_for(quotes: Seq<QuoteModel>) -> Seq<SourceRowModel> {
    Seq::new(quotes.len(), |i: int| row_for(quotes[i]))
}

/// Whether every quote has a usable price.
pub open spec fn all_usable(quotes: Seq<QuoteModel>) -> bool {
    forall|i: int| 0 <= i < quotes.len() ==> (#[trigger] quotes[i]).price_usd.usable()
}

/// Whether rows are those of a snapshot.
pub open spec fn lays_out(
    rows: (SnapshotRow, Vec<SourceRow>),
    snapshot: SnapshotModel,
) -> bool {
    &&& rows.0.fetched_at_unix == snapshot.fetched_at_unix
    &&& rows.0.average_price == snapshot.average_price
    &&& rows.0.spread == snapshot.spread
    &&& rows.0.warnings_json@ == json_list_text(snapshot.warnings)
    &&& denotes(json_list(rows.0.warnings_json@), snapshot.warnings)
    &&& optional_text(rows.0.refreshed_source) == snapshot.refreshed_source
    &&& source_row_models(rows.1@) == rows_for(snapshot.sources)
}

/// Lays out a snapshot in rows. A snapshot with an unusable price is refused.
pub fn write_snapshot(snapshot: &SnapshotRecord) -> (rows: Result<
    (SnapshotRow, Vec<SourceRow>),
    String,
>)
    ensures
        match rows {
            Ok(rows) => all_usable(snapshot@.sources) && lays_out(rows, snapshot@),
            Err(message) => {
                &&& !all_usable(snapshot@.sources)
                &&& message@ == "refusing to store an invalid source price"@
            },
        },
{
    let ghost quotes = quote_models(snapshot.sources@);
    let mut rows: Vec<SourceRow> = Vec::new();
    let mut i: usize = 0;
    while i < snapshot.sources.len()
        invariant
            i <= snapshot.sources@.len(),
            quotes == quote_models(snapshot.sources@),
            rows@.len() == i,
            forall|j: int| 0 <= j < i ==> (#[trigger] quotes[j]).price_usd.usable(),
            forall|j: int| 0 <= j < i ==> (#[trigger] rows@[j])@ == row_for(quotes[j]),
        decreases snapshot.sources@.len() - i,
    {
        let quote = &snapshot.sources[i];
        assert(quotes[i as int] == quote@);
        if !quote.price_usd.is_usable() {
            return Err("refusing to store an invalid source price".to_owned());
        }
        rows.push(
            SourceRow {
                source: quote.source.clone(),
                price_usd: quote.price_usd,
                last_success_at_unix: quote.last_success_at_unix,
                quote_kind: quote.quote_kind.text().to_owned(),
            },
        );
        i += 1;
    }
    assert(source_row_models(rows@) =~= rows_for(quotes));
    let head = SnapshotRow {
        fetched_at_unix: snapshot.fetched_at_unix,
        average_price: snapshot.average_price,
        spread: snapshot.spread,
        warnings_json: encode_texts(&snapshot.warnings),
        refreshed_source: copy_optional_text(&snapshot.refreshed_source),
    };
    Ok((head, rows))
}

/// Whether a row holds a quote: its kind must be one.
pub open spec fn readable_row(row: SourceRowModel) -> bool {
    kind_for_text(row.quote_kind) is Some
}

/// The quote of a row.
pub open spec fn quote_in(row: SourceRowModel) -> QuoteModel {
    QuoteModel {
        source: row.source,
        price_usd: row.price_usd,
        last_success_at_unix: row.last_success_at_unix,
        quote_kind: kind_for_text(row.quote_kind)->0,
    }
}

/// The quotes of rows.
pub open spec fn quotes_in(rows: Seq<SourceRowModel>) -> Seq<QuoteModel> {
    Seq::new(rows.len(), |i: int| quote_in(rows[i]))
}

/// What is wrong with a row that holds no quote.
pub open spec fn row_fault(row: SourceRowModel) -> Seq<char> {
    conversion_text(3, unknown_word(row.quote_kind, quote_kind_words()))
}

/// Whether a row is the first, in the order of the names, of those that hold no quote.
pub open spec fn first_unreadable(rows: Seq<SourceRowModel>, i: int) -> bool {
    &&& 0 <= i < rows.len()
    &&& !readable_row(rows[i])
    &&& forall|j: int|
        0 <= j < rows.len() && !readable_row(#[trigger] rows[j]) ==> !name_before(
            rows[j].source,
            rows[i].source,
        )
}

/// Whether every row holds a quote.
pub open spec fn all_readable(rows: Seq<SourceRowModel>) -> bool {
    forall|i: int| 0 <= i < rows.len() ==> readable_row(#[trigger] rows[i])
}

/// Whether quotes stand in the order of their names.
pub open spec fn sorted_by_name(quotes: Seq<QuoteModel>) -> bool {
    forall|i: int, j: int|
        0 <= i < j < quotes.len() ==> !name_before(
            (#[trigger] quotes[j]).source,
            (#[trigger] quotes[i]).source,
        )
}

/// Whether a snapshot is the one that rows hold: its quotes are those of the rows, in the order
/// of their names.
pub open spec fn restores(
    snapshot: SnapshotModel,
    head: SnapshotRow,
    rows: Seq<SourceRowModel>,
) -> bool {
    &&& snapshot.fetched_at_unix == head.fetched_at_unix
    &&& snapshot.average_price == head.average_price
    &&& snapshot.spread == head.spread
    &&& denotes(json_list(head.warnings_json@), snapshot.warnings)
    &&& snapshot.refreshed_source == optional_text(head.refreshed_source)
    &&& sorted_by_name(snapshot.sources)
    &&& snapshot.sources.to_multiset() == quotes_in(rows).to_multiset()
}

/// Reads a snapshot back from its rows. Warnings that are no list of texts and kinds that are
/// none are refused; of several such kinds the first, in the order of the names, is reported.
pub fn read_snapshot(head: SnapshotRow, rows: &Vec<SourceRow>) -> (snapshot: Result<
    SnapshotRecord,
    String,
>)
    ensures
        match snapshot {
            Ok(snapshot) => {
                &&& all_readable(source_row_models(rows@))
                &&& restores(snapshot@, head, source_row_models(rows@))
            },
            Err(message) => match json_list(head.warnings_json@) {
                Err(words) => message@ == "failed to decode stored warnings: "@ + words,
                Ok(_) => exists|i: int| #[trigger]
                    first_unreadable(source_row_models(rows@), i) && message@
                        == "failed to decode stored source row: "@ + row_fault(
                        source_row_models(rows@)[i],
                    ),
            },
        },
{
    let warnings = match decode_texts(head.warnings_json.as_str()) {
        Ok(warnings) => warnings,
        Err(words) => {
            let mut message = "failed to decode stored warnings: ".to_owned();
            message.append(words.as_str());
            return Err(message);
        },
    };
    let ghost models = source_row_models(rows@);
    let mut sources: Vec<StoredQuote> = Vec::new();
    let mut unreadable: Option<usize> = None;
    let mut i: usize = 0;
    proof {
        assert(quote_models(sources@) =~= quotes_in(models.take(0)));
    }
    while i < rows.len()
        invariant
            i <= rows@.len(),
            models == source_row_models(rows@),
            match unreadable {
                Some(place) => place < rows@.len() && first_unreadable(
                    models.take(i as int),
                    place as int,
                ),
                None => {
                    &&& all_readable(models.take(i as int))
                    &&& sorted_by_name(quote_models(sources@))
                    &&& quote_models(sources@).to_multiset() == quotes_in(
                        models.take(i as int),
                    ).to_multiset()
                },
            },
        decreases rows@.len() - i,
    {
        let row = &rows[i];
        let ghost before = models.take(i as int);
        let ghost after = models.take(i + 1);
        assert(after =~= before.push(row@));
        assert forall|j: int| 0 <= j < i implies #[trigger] after[j] == before[j] by {}
        match QuoteKind::from_text(row.quote_kind.as_str()) {
            Some(quote_kind) => {
                if unreadable.is_none() {
                    let quote = StoredQuote {
                        source: row.source.clone(),
                        price_usd: row.price_usd,
                        last_success_at_unix: row.last_success_at_unix,
                        quote_kind,
                    };
                    proof {
                        assert(quotes_in(after) =~= quotes_in(before).push(quote@));
                        to_multiset_build(quotes_in(before), quote@);
                    }
                    insert_by_name(&mut sources, quote);
                }
            },
            None => {
                let earlier = match unreadable {
                    Some(place) => is_name_before(row.source.as_str(), rows[place].source.as_str()),
                    None => true,
                };
                if earlier {
                    proof {
                        assert forall|j: int|
                            0 <= j < after.len() && !readable_row(
                                #[trigger] after[j],
                            ) implies !name_before(after[j].source, row@.source) by {
                            lemma_names_are_ordered(row@.source, row@.source);
                            if j < i && name_before(after[j].source, row@.source) {
                                assert(!readable_row(before[j]));
                                lemma_name_order_is_transitive(
                                    after[j].source,
                                    row@.source,
                                    models[unreadable->0 as int].source,
                                );
                            }
                        }
                    }
                    unreadable = Some(i);
                }
            },
        }
        i += 1;
    }
    assert(models.take(i as int) =~= models);
    if let Some(place) = unreadable {
        let kind = rows[place].quote_kind.as_str();
        let reason = failed_conversion(3, unknown_variant(kind, QuoteKind::words()));
        let mut message = "failed to decode stored source row: ".to_owned();
        message.append(reason.as_str());
        assert(first_unreadable(models, place as int));
        return Err(message);
    }
    Ok(
        SnapshotRecord {
            fetched_at_unix: head.fetched_at_unix,
            sources,
            average_price: head.average_price,
            spread: head.spread,
            warnings,
            refreshed_source: head.refreshed_source,
        },
    )
}

/// Whether names stand in order.
pub open spec fn names_sorted(names: Seq<Seq<char>>) -> bool {
    forall|i: int, j: int|
        0 <= i < j < names.len() ==> !name_before(#[trigger] names[j], #[trigger] names[i])
}

/// Names stay in order where one more is put behind the last that is not after it.
proof fn lemma_insertion_keeps_order(names: Seq<Seq<char>>, place: int, name: Seq<char>)
    requires
        names_sorted(names),
        0 <= place <= names.len(),
        place > 0 ==> !name_before(name, names[place - 1]),
        forall|j: int| place <= j < names.len() ==> name_before(name, #[trigger] names[j]),
    ensures
        names_sorted(names.insert(place, name)),
{
    let longer = names.insert(place, name);
    assert forall|j: int, k: int| 0 <= j < k < longer.len() implies !name_before(
        #[trigger] longer[k],
        #[trigger] longer[j],
    ) by {
        if j == place {
            lemma_names_are_ordered(name, names[k - 1]);
        } else if k == place {
            lemma_names_are_ordered(names[j], names[place - 1]);
            if name_before(name, names[j]) && names[j] != names[place - 1] {
                assert(!name_before(names[place - 1], names[j]));
                lemma_name_order_is_transitive(name, names[j], names[place - 1]);
            }
        }
    }
}

/// Puts a quote into a list that stands in the order of the names.
fn insert_by_name(quotes: &mut Vec<StoredQuote>, quote: StoredQuote)
    requires
        sorted_by_name(quote_models(old(quotes)@)),
    ensures
        sorted_by_name(quote_models(final(quotes)@)),
        quote_models(final(quotes)@).to_multiset() == quote_models(
            old(quotes)@,
        ).to_multiset().insert(quote@),
{
    let ghost before = quote_models(quotes@);
    let ghost added = quote@;
    let mut i: usize = quotes.len();
    while i > 0 && is_name_before(quote.source.as_str(), quotes[i - 1].source.as_str())
        invariant
            i <= quotes@.len(),
            *quotes == *old(quotes),
            before == quote_models(quotes@),
            added == quote@,
            forall|j: int|
                i <= j < before.len() ==> name_before(added.source, (#[trigger] before[j]).source),
        decreases i,
    {
        i -= 1;
    }
    quotes.insert(i, quote);
    proof {
        let after = quote_models(quotes@);
        assert(after =~= before.insert(i as int, added));
        to_multiset_insert(before, i as int, added);
        let names = Seq::new(before.len(), |j: int| before[j].source);
        lemma_insertion_keeps_order(names, i as int, added.source);
        let longer = names.insert(i as int, added.source);
        assert forall|j: int| 0 <= j < after.len() implies (#[trigger] after[j]).source
            == longer[j] by {}
    }
}

/// The row of a provider's health.
#[derive(Debug, PartialEq)]
pub struct HealthRow {
    pub source: String,
    pub attempt_outcome: String,
    pub attempted_at_unix: Option<i64>,
    pub error_category: Option<String>,
    pub error_message: Option<String>,
    pub http_status: Option<u16>,
}

/// What the row of a provider's health holds.
pub struct HealthRowModel {
    pub source: Seq<char>,
    pub attempt_outcome: Seq<char>,
    pub attempted_at_unix: Option<i64>,
    pub error_category: Option<Seq<char>>,
    pub error_message: Option<Seq<char>>,
    pub http_status: Option<u16>,
}

impl View for HealthRow {
    type V = HealthRowModel;

    open spec fn view(&self) -> HealthRowModel {
        HealthRowModel {
            source: self.source@,
            attempt_outcome: self.attempt_outcome@,
            attempted_at_unix: self.attempted_at_unix,
            error_category: optional_text(self.error_category),
            error_message: optional_text(self.error_message),
            http_status: self.http_status,
        }
    }
}

/// What each row of a list holds.
pub open spec fn health_row_models(rows: Seq<HealthRow>) -> Seq<HealthRowModel> {
    Seq::new(rows.len(), |i: int| rows[i]@)
}

/// The row of a health record.
pub open spec fn health_row_for(record: HealthModel) -> HealthRowModel {
    match record.last_attempt {
        AttemptModel::Unknown => HealthRowModel {
            source: record.source,
            attempt_outcome: "unknown"@,
            attempted_at_unix: None,
            error_category: None,
            error_message: None,
            http_status: None,
        },
        AttemptModel::Success(time) => HealthRowModel {
            source: record.source,
            attempt_outcome: "success"@,
            attempted_at_unix: Some(time),
            error_category: None,
            error_message: None,
            http_status: None,
        },
        AttemptModel::Failure(time, error) => HealthRowModel {
            source: record.source,
            attempt_outcome: "failure"@,
            attempted_at_unix: Some(time),
            error_category: Some(category_text(error.category)),
            error_message: Some(error.message),
            http_status: error.http_status,
        },
    }
}

/// The rows of health records.
pub open spec fn health_rows_for(records: Seq<HealthModel>) -> Seq<HealthRowModel> {
    Seq::new(records.len(), |i: int| health_row_for(records[i]))
}

/// Lays out health records in rows.
pub fn write_provider_health(health: &Vec<ProviderHealth>) -> (rows: Vec<HealthRow>)
    ensures
        health_row_models(rows@) == health_rows_for(health_models(health@)),
{
    let ghost records = health_models(health@);
    let mut rows: Vec<HealthRow> = Vec::new();
    let mut i: usize = 0;
    while i < health.len()
        invariant
            i <= health@.len(),
            records == health_models(health@),
            rows@.len() == i,
            forall|j: int| 0 <= j < i ==> (#[trigger] rows@[j])@ == health_row_for(records[j]),
        decreases health@.len() - i,
    {
        let record = &health[i];
        assert(records[i as int] == record@);
        let source = record.source.clone();
        let row = match &record.last_attempt {
            LastAttempt::Unknown => HealthRow {
                source,
                attempt_outcome: "unknown".to_owned(),
                attempted_at_unix: None,
                error_category: None,
                error_message: None,
                http_status: None,
            },
            LastAttempt::Success { attempted_at_unix } => HealthRow {
                source,
                attempt_outcome: "success".to_owned(),
                attempted_at_unix: Some(*attempted_at_unix),
                error_category: None,
                error_message: None,
                http_status: None,
            },
            LastAttempt::Failure { attempted_at_unix, error } => HealthRow {
                source,
                attempt_outcome: "failure".to_owned(),
                attempted_at_unix: Some(*attempted_at_unix),
                error_category: Some(error.category.text().to_owned()),
                error_message: Some(error.message.clone()),
                http_status: error.http_status,
            },
        };
        rows.push(row);
        i += 1;
    }
    assert(health_row_models(rows@) =~= health_rows_for(records));
    rows
}

/// The health record of a row, where it holds one.
pub open spec fn health_in(row: HealthRowModel) -> Option<HealthModel> {
    let attempt = if row.attempt_outcome == "unknown"@ {
        Some(AttemptModel::Unknown)
    } else if row.attempt_outcome == "success"@ {
        match row.attempted_at_unix {
            Some(time) => Some(AttemptModel::Success(time)),
            None => None,
        }
    } else if row.attempt_outcome == "failure"@ {
        match (row.attempted_at_unix, row.error_category, row.error_message) {
            (Some(time), Some(category), Some(message)) => match category_for_text(category) {
                Some(category) => Some(
                    AttemptModel::Failure(
                        time,
                        SourceErrorModel { category, message, http_status: row.http_status },
                    ),
                ),
                None => None,
            },
            _ => None,
        }
    } else {
        None
    };
    match attempt {
        Some(last_attempt) => Some(HealthModel { source: row.source, last_attempt }),
        None => None,
    }
}

/// What is wrong with a row that holds no health record: its outcome is none, or one of the columns
/// that its outcome needs is empty or stands for nothing.
pub open spec fn health_fault(row: HealthRowModel) -> Seq<char> {
    if row.attempt_outcome != "success"@ && row.attempt_outcome != "failure"@ {
        "Query is not read-only"@
    } else if row.attempted_at_unix is None {
        empty_column_text(2, "attempted_at_unix"@)
    } else {
        match row.error_category {
            None => empty_column_text(3, "error_category"@),
            Some(category) => if category_for_text(category) is None {
                conversion_text(3, unknown_word(category, category_words()))
            } else {
                empty_column_text(4, "error_message"@)
            },
        }
    }
}

/// Whether a row is the first, in the order of the names, of those that hold no health record.
pub open spec fn first_unreadable_health(rows: Seq<HealthRowModel>, i: int) -> bool {
    &&& 0 <= i < rows.len()
    &&& health_in(rows[i]) is None
    &&& forall|j: int|
        0 <= j < rows.len() && health_in(#[trigger] rows[j]) is None ==> !name_before(
            rows[j].source,
            rows[i].source,
        )
}

/// Reads a health record back from its row.
fn read_health_row(row: &HealthRow) -> (record: Result<ProviderHealth, String>)
    ensures
        match record {
            Ok(record) => health_in(row@) == Some(record@),
            Err(fault) => health_in(row@) is None && fault@ == health_fault(row@),
        },
{
    let outcome = row.attempt_outcome.as_str();
    let last_attempt = if same_text(outcome, "unknown") {
        LastAttempt::Unknown
    } else if same_text(outcome, "success") {
        match row.attempted_at_unix {
            Some(attempted_at_unix) => LastAttempt::Success { attempted_at_unix },
            None => {
                return Err(empty_column(2, "attempted_at_unix"));
            },
        }
    } else if same_text(outcome, "failure") {
        match read_failure(row) {
            Ok(last_attempt) => last_attempt,
            Err(fault) => {
                return Err(fault);
            },
        }
    } else {
        return Err(invalid_query());
    };
    Ok(ProviderHealth { source: row.source.clone(), last_attempt })
}

/// Reads a failed attempt back from its row.
fn read_failure(row: &HealthRow) -> (attempt: Result<LastAttempt, String>)
    requires
        row@.attempt_outcome == "failure"@,
    ensures
        match attempt {
            Ok(attempt) => health_in(row@) == Some(
                HealthModel { source: row@.source, last_attempt: attempt@ },
            ),
            Err(fault) => health_in(row@) is None && fault@ == health_fault(row@),
        },
{
    proof {
        lemma_outcomes_are_distinct();
    }
    let attempted_at_unix = match row.attempted_at_unix {
        Some(time) => time,
        None => {
            return Err(empty_column(2, "attempted_at_unix"));
        },
    };
    let category = match &row.error_category {
        Some(text) => match ErrorCategory::from_text(text.as_str()) {
            Some(category) => category,
            None => {
                let reason = unknown_variant(text.as_str(), ErrorCategory::words());
                return Err(failed_conversion(3, reason));
            },
        },
        None => {
            return Err(empty_column(3, "error_category"));
        },
    };
    match &row.error_message {
        Some(message) => Ok(
            LastAttempt::Failure {
                attempted_at_unix,
                error: SourceError {
                    category,
                    message: message.clone(),
                    http_status: row.http_status,
                },
            },
        ),
        None => Err(empty_column(4, "error_message")),
    }
}

/// The words for the outcomes differ.
proof fn lemma_outcomes_are_distinct()
    ensures
        "unknown"@ != "success"@,
        "unknown"@ != "failure"@,
        "success"@ != "failure"@,
{
    reveal_strlit("unknown");
    reveal_strlit("success");
    reveal_strlit("failure");
    assert("unknown"@[0] == 'u');
    assert("success"@[0] == 's');
    assert("failure"@[0] == 'f');
}

/// The health records of rows.
pub open spec fn all_health_in(rows: Seq<HealthRowModel>) -> Seq<HealthModel> {
    Seq::new(rows.len(), |i: int| health_in(rows[i])->0)
}

/// Whether every row holds a health record.
pub open spec fn all_health_readable(rows: Seq<HealthRowModel>) -> bool {
    forall|i: int| 0 <= i < rows.len() ==> health_in(#[trigger] rows[i]) is Some
}

/// Whether health records stand in the order of their names.
pub open spec fn health_by_name(records: Seq<HealthModel>) -> bool {
    forall|i: int, j: int|
        0 <= i < j < records.len() ==> !name_before(
            (#[trigger] records[j]).source,
            (#[trigger] records[i]).source,
        )
}

/// Reads health records back from their rows, in the order of their names. A row that holds none
/// is refused; of several such rows the first, in the order of the names, is reported.
pub fn read_provider_health(rows: &Vec<HealthRow>) -> (health: Result<Vec<ProviderHealth>, String>)
    ensures
        match health {
            Ok(health) => {
                &&& all_health_readable(health_row_models(rows@))
                &&& health_by_name(health_models(health@))
                &&& health_models(health@).to_multiset() == all_health_in(
                    health_row_models(rows@),
                ).to_multiset()
            },
            Err(message) => exists|i: int| #[trigger]
                first_unreadable_health(health_row_models(rows@), i) && message@
                    == "failed to decode provider health: "@ + health_fault(
                    health_row_models(rows@)[i],
                ),
        },
{
    let ghost models = health_row_models(rows@);
    let mut health: Vec<ProviderHealth> = Vec::new();
    let mut unreadable: Option<(usize, String)> = None;
    let mut i: usize = 0;
    proof {
        assert(health_models(health@) =~= all_health_in(models.take(0)));
    }
    while i < rows.len()
        invariant
            i <= rows@.len(),
            models == health_row_models(rows@),
            match unreadable {
                Some((place, fault)) => {
                    &&& place < rows@.len()
                    &&& first_unreadable_health(models.take(i as int), place as int)
                    &&& fault@ == health_fault(models[place as int])
                },
                None => {
                    &&& all_health_readable(models.take(i as int))
                    &&& health_by_name(health_models(health@))
                    &&& health_models(health@).to_multiset() == all_health_in(
                        models.take(i as int),
                    ).to_multiset()
                },
            },
        decreases rows@.len() - i,
    {
        let row = &rows[i];
        let ghost before = models.take(i as int);
        let ghost after = models.take(i + 1);
        assert(after =~= before.push(row@));
        assert forall|j: int| 0 <= j < i implies #[trigger] after[j] == before[j] by {}
        match read_health_row(row) {
            Ok(record) => {
                if unreadable.is_none() {
                    proof {
                        assert(all_health_in(after) =~= all_health_in(before).push(record@));
                        to_multiset_build(all_health_in(before), record@);
                    }
                    insert_health_by_name(&mut health, record);
                }
            },
            Err(fault) => {
                let earlier = match &unreadable {
                    Some((place, _)) => is_name_before(
                        row.source.as_str(),
                        rows[*place].source.as_str(),
                    ),
                    None => true,
                };
                if earlier {
                    proof {
                        assert forall|j: int|
                            0 <= j < after.len() && health_in(
                                #[trigger] after[j],
                            ) is None implies !name_before(after[j].source, row@.source) by {
                            lemma_names_are_ordered(row@.source, row@.source);
                            if j < i && name_before(after[j].source, row@.source) {
                                assert(health_in(before[j]) is None);
                                lemma_name_order_is_transitive(
                                    after[j].source,
                                    row@.source,
                                    models[(unreadable->0).0 as int].source,
                                );
                            }
                        }
                    }
                    unreadable = Some((i, fault));
                }
            },
        }
        i += 1;
    }
    assert(models.take(i as int) =~= models);
    if let Some((place, fault)) = unreadable {
        let mut message = "failed to decode provider health: ".to_owned();
        message.append(fault.as_str());
        assert(first_unreadable_health(models, place as int));
        return Err(message);
    }
    Ok(health)
}

/// Puts a health record into a list that stands in the order of the names.
fn insert_health_by_name(health: &mut Vec<ProviderHealth>, record: ProviderHealth)
    requires
        health_by_name(health_models(old(health)@)),
    ensures
        health_by_name(health_models(final(health)@)),
        health_models(final(health)@).to_multiset() == health_models(
            old(health)@,
        ).to_multiset().insert(record@),
{
    let ghost before = health_models(health@);
    let ghost added = record@;
    let mut i: usize = health.len();
    while i > 0 && is_name_before(record.source.as_str(), health[i - 1].source.as_str())
        invariant
            i <= health@.len(),
            *health == *old(health),
            before == health_models(health@),
            added == record@,
            forall|j: int|
                i <= j < before.len() ==> name_before(added.source, (#[trigger] before[j]).source),
        decreases i,
    {
        i -= 1;
    }
    health.insert(i, record);
    proof {
        let after = health_models(health@);
        assert(after =~= before.insert(i as int, added));
        to_multiset_insert(before, i as int, added);
        let names = Seq::new(before.len(), |j: int| before[j].source);
        lemma_insertion_keeps_order(names, i as int, added.source);
        let longer = names.insert(i as int, added.source);
        assert forall|j: int| 0 <= j < after.len() implies (#[trigger] after[j]).source
            == longer[j] by {}
    }
}

/// What the tables demand of a health row: which of its columns are set follows from the outcome,
/// and a status code stands with HTTP failures only.
pub open spec fn consistent_health(row: HealthRowModel) -> bool {
    let no_error = row.error_category is None && row.error_message is None
        && row.http_status is None;
    ||| row.attempt_outcome == "unknown"@ && row.attempted_at_unix is None && no_error
    ||| row.attempt_outcome == "success"@ && row.attempted_at_unix is Some && no_error
    ||| {
        &&& row.attempt_outcome == "failure"@
        &&& row.attempted_at_unix is Some
        &&& row.error_message is Some
        &&& row.error_category matches Some(category)
        &&& category_for_text(category) is Some
        &&& if category == "http"@ {
            row.http_status matches Some(status) && 100 <= status <= 599
        } else {
            row.http_status is None
        }
    }
}

/// What a snapshot holds comes back from its rows: its quotes in the order of their names, and
/// everything else as it was.
pub proof fn law_stored_snapshots_are_read_back(
    snapshot: SnapshotModel,
    rows: (SnapshotRow, Vec<SourceRow>),
    read: SnapshotModel,
)
    requires
        lays_out(rows, snapshot),
        restores(read, rows.0, source_row_models(rows.1@)),
    ensures
        all_readable(source_row_models(rows.1@)),
        read.fetched_at_unix == snapshot.fetched_at_unix,
        read.average_price == snapshot.average_price,
        read.spread == snapshot.spread,
        read.warnings == snapshot.warnings,
        read.refreshed_source == snapshot.refreshed_source,
        read.sources.to_multiset() == snapshot.sources.to_multiset(),
        sorted_by_name(read.sources),
{
    let laid_out = rows_for(snapshot.sources);
    assert forall|i: int| 0 <= i < laid_out.len() implies readable_row(#[trigger] laid_out[i])
        && quote_in(laid_out[i]) == snapshot.sources[i] by {
        law_quote_kind_texts_are_distinct(
            snapshot.sources[i].quote_kind,
            snapshot.sources[i].quote_kind,
        );
    }
    assert(quotes_in(laid_out) =~= snapshot.sources);
}

/// A snapshot whose quotes stand in the order of their names, each name once, comes back from its
/// rows as it was.
pub proof fn law_merged_snapshots_are_read_back_unchanged(
    snapshot: SnapshotModel,
    rows: (SnapshotRow, Vec<SourceRow>),
    read: SnapshotModel,
)
    requires
        lays_out(rows, snapshot),
        restores(read, rows.0, source_row_models(rows.1@)),
        in_order(snapshot.sources),
    ensures
        read == snapshot,
{
    law_stored_snapshots_are_read_back(snapshot, rows, read);
    lemma_sorted_permutation(read.sources, snapshot.sources);
}

/// An ordered list without repeated names is the only ordered arrangement of its rows.
proof fn lemma_sorted_permutation(a: Seq<QuoteModel>, b: Seq<QuoteModel>)
    requires
        sorted_by_name(a),
        in_order(b),
        a.to_multiset() == b.to_multiset(),
    ensures
        a == b,
    decreases b.len(),
{
    broadcast use vstd::seq_lib::group_to_multiset_ensures;

    assert(a.len() == a.to_multiset().len());
    assert(b.len() == b.to_multiset().len());
    if b.len() == 0 {
        assert(a =~= b);
    } else {
        let last = b.len() - 1;
        assert(b.contains(b[last]));
        assert(a.contains(a[last]));
        assert(b.to_multiset().count(a[last]) > 0);
        assert(a.to_multiset().count(b[last]) > 0);
        let i = choose|i: int| 0 <= i < b.len() && b[i] == a[last];
        let j = choose|j: int| 0 <= j < a.len() && a[j] == b[last];
        if i < last {
            assert(name_before(b[i].source, b[last].source));
            lemma_names_are_ordered(b[i].source, b[last].source);
            assert(j < last);
            assert(!name_before(a[last].source, a[j].source));
        }
        assert(a[last] == b[last]);
        let c = a.drop_last();
        let d = b.drop_last();
        assert(a =~= c.push(a[last]));
        assert(b =~= d.push(b[last]));
        to_multiset_build(c, a[last]);
        to_multiset_build(d, b[last]);
        assert(c.to_multiset() =~= a.to_multiset().remove(a[last]));
        assert(d.to_multiset() =~= b.to_multiset().remove(b[last]));
        assert forall|p: int, q: int| 0 <= p < q < c.len() implies !name_before(
            (#[trigger] c[q]).source,
            (#[trigger] c[p]).source,
        ) by {
            assert(c[p] == a[p] && c[q] == a[q]);
        }
        assert forall|p: int, q: int| 0 <= p < q < d.len() implies name_before(
            (#[trigger] d[p]).source,
            (#[trigger] d[q]).source,
        ) by {
            assert(d[p] == b[p] && d[q] == b[q]);
        }
        lemma_sorted_permutation(c, d);
    }
}

/// Each health record comes back from its row as it was.
pub proof fn law_stored_health_is_read_back(record: HealthModel)
    ensures
        health_in(health_row_for(record)) == Some(record),
{
    lemma_outcomes_are_distinct();
    match record.last_attempt {
        AttemptModel::Failure(_, error) => {
            law_category_texts_are_distinct(error.category, error.category);
        },
        _ => {},
    }
}

/// Health records come back from their rows as they were, in the order of their names.
pub proof fn law_stored_health_lists_are_read_back(
    records: Seq<HealthModel>,
    rows: Seq<HealthRowModel>,
    read: Seq<HealthModel>,
)
    requires
        rows == health_rows_for(records),
        read.to_multiset() == all_health_in(rows).to_multiset(),
        health_by_name(read),
    ensures
        all_health_readable(rows),
        read.to_multiset() == records.to_multiset(),
        health_by_name(read),
{
    assert forall|i: int| 0 <= i < rows.len() implies health_in(#[trigger] rows[i]) == Some(
        records[i],
    ) by {
        law_stored_health_is_read_back(records[i]);
    }
    assert(all_health_in(rows) =~= records);
}

/// The row of a health record meets the demands of the tables, where a status code, from 100 to
/// 599, stands with HTTP failures and only there.
pub proof fn law_health_rows_are_consistent(record: HealthModel)
    requires
        record.last_attempt matches AttemptModel::Failure(_, error) ==> {
            if error.category == ErrorCategory::Http {
                error.http_status matches Some(status) && 100 <= status <= 599
            } else {
                error.http_status is None
            }
        },
    ensures
        consistent_health(health_row_for(record)),
{
    match record.last_attempt {
        AttemptModel::Failure(_, error) => {
            law_category_texts_are_distinct(error.category, ErrorCategory::Http);
            law_category_texts_are_distinct(error.category, error.category);
        },
        _ => {},
    }
}

/// Of two different snapshots one is older than the other, and not both.
pub proof fn law_snapshots_are_ordered(a: SnapshotKey, b: SnapshotKey)
    ensures
        a != b ==> (older(a, b) <==> !older(b, a)),
        !older(a, a),
{
}

/// A snapshot is laid out as it is: its times, aggregates and label in its own row, its warnings as
/// the JSON list that reads back as them, and each quote in a row of its own, in order, with the
/// wire text of its kind.
pub proof fn law_snapshots_are_laid_out_as_they_are(
    rows: (SnapshotRow, Vec<SourceRow>),
    snapshot: SnapshotModel,
    i: int,
)
    requires
        lays_out(rows, snapshot),
    ensures
        rows.0.fetched_at_unix == snapshot.fetched_at_unix,
        rows.0.average_price == snapshot.average_price,
        rows.0.spread == snapshot.spread,
        json_list(rows.0.warnings_json@) == Ok::<Seq<Seq<char>>, Seq<char>>(snapshot.warnings),
        optional_text(rows.0.refreshed_source) == snapshot.refreshed_source,
        rows.1@.len() == snapshot.sources.len(),
        0 <= i < snapshot.sources.len() ==> {
            &&& rows.1@[i].source@ == snapshot.sources[i].source
            &&& rows.1@[i].price_usd == snapshot.sources[i].price_usd
            &&& rows.1@[i].last_success_at_unix == snapshot.sources[i].last_success_at_unix
            &&& rows.1@[i].quote_kind@ == quote_kind_text(snapshot.sources[i].quote_kind)
        },
{
    let models = source_row_models(rows.1@);
    assert(models.len() == rows.1@.len());
    if 0 <= i < snapshot.sources.len() {
        assert(models[i] == rows.1@[i]@);
        assert(models[i] == row_for(snapshot.sources[i]));
    }
}

/// A snapshot is laid out where every quote has a usable price, and refused where any has not.
pub proof fn law_unusable_prices_are_not_stored(quotes: Seq<QuoteModel>)
    ensures
        all_usable(quotes) <==> forall|i: int|
            0 <= i < quotes.len() ==> (#[trigger] quotes[i]).price_usd.usable(),
{
}

/// A row holds the quote of its columns, where its kind is the wire text of one.
pub proof fn law_rows_hold_the_quote_of_their_columns(row: SourceRowModel, kind: QuoteKind)
    ensures
        row.quote_kind == quote_kind_text(kind) ==> {
            &&& readable_row(row)
            &&& quote_in(row).source == row.source
            &&& quote_in(row).price_usd == row.price_usd
            &&& quote_in(row).last_success_at_unix == row.last_success_at_unix
            &&& quote_in(row).quote_kind == kind
        },
        (forall|other: QuoteKind| row.quote_kind != #[trigger] quote_kind_text(other))
            ==> !readable_row(row),
{
    law_kinds_are_read_from_their_texts(row.quote_kind, kind);
    if readable_row(row) {
        let found = kind_for_text(row.quote_kind)->0;
        law_kinds_are_read_from_their_texts(row.quote_kind, found);
        assert(row.quote_kind == quote_kind_text(found));
    }
}

/// A snapshot that is read has what its row says, and the quotes of its rows, each as often as
/// there, in the order of their names.
pub proof fn law_snapshots_are_read_as_they_are(
    read: SnapshotModel,
    head: SnapshotRow,
    rows: Seq<SourceRowModel>,
    i: int,
    j: int,
)
    requires
        restores(read, head, rows),
    ensures
        read.fetched_at_unix == head.fetched_at_unix,
        read.average_price == head.average_price,
        read.spread == head.spread,
        json_list(head.warnings_json@) == Ok::<Seq<Seq<char>>, Seq<char>>(read.warnings),
        read.refreshed_source == optional_text(head.refreshed_source),
        read.sources.len() == rows.len(),
        read.sources.to_multiset() == rows.map_values(
            |row: SourceRowModel| quote_in(row),
        ).to_multiset(),
        0 <= i < j < read.sources.len() ==> !name_before(
            read.sources[j].source,
            read.sources[i].source,
        ),
{
    broadcast use vstd::seq_lib::group_to_multiset_ensures;

    assert(quotes_in(rows) =~= rows.map_values(|row: SourceRowModel| quote_in(row)));
    assert(read.sources.len() == read.sources.to_multiset().len());
    assert(rows.len() == quotes_in(rows).to_multiset().len());
}

/// A health record is laid out by its outcome: an unknown one has no other columns, a success its
/// time, a failure its time, category, message and status.
pub proof fn law_health_is_laid_out_by_outcome(record: HealthModel)
    ensures
        ({
            let row = health_row_for(record);
            &&& row.source == record.source
            &&& match record.last_attempt {
                AttemptModel::Unknown => row.attempt_outcome == "unknown"@
                    && row.attempted_at_unix is None,
                AttemptModel::Success(time) => row.attempt_outcome == "success"@
                    && row.attempted_at_unix == Some(time),
                AttemptModel::Failure(time, error) => {
                    &&& row.attempt_outcome == "failure"@
                    &&& row.attempted_at_unix == Some(time)
                    &&& row.error_category == Some(category_text(error.category))
                    &&& row.error_message == Some(error.message)
                    &&& row.http_status == error.http_status
                },
            }
            &&& !(record.last_attempt is Failure) ==> {
                &&& row.error_category is None
                &&& row.error_message is None
                &&& row.http_status is None
            }
        }),
{
}

/// A row holds a health record where its outcome is one and the columns that the outcome needs are
/// there, and then the record of these columns.
pub proof fn law_health_is_read_by_outcome(row: HealthRowModel, category: ErrorCategory)
    ensures
        row.attempt_outcome == "unknown"@ ==> health_in(row) == Some(
            HealthModel { source: row.source, last_attempt: AttemptModel::Unknown },
        ),
        row.attempt_outcome == "success"@ && row.attempted_at_unix is Some ==> health_in(row)
            == Some(
            HealthModel {
                source: row.source,
                last_attempt: AttemptModel::Success(row.attempted_at_unix->0),
            },
        ),
        row.attempt_outcome == "failure"@ && row.attempted_at_unix is Some && row.error_category
            == Some(category_text(category)) && row.error_message is Some ==> health_in(row)
            == Some(
            HealthModel {
                source: row.source,
                last_attempt: AttemptModel::Failure(
                    row.attempted_at_unix->0,
                    SourceErrorModel {
                        category,
                        message: row.error_message->0,
                        http_status: row.http_status,
                    },
                ),
            },
        ),
        health_in(row) is Some ==> {
            ||| row.attempt_outcome == "unknown"@
            ||| row.attempt_outcome == "success"@ && row.attempted_at_unix is Some
            ||| {
                &&& row.attempt_outcome == "failure"@
                &&& row.attempted_at_unix is Some
                &&& row.error_message is Some
                &&& row.error_category is Some
                &&& exists|known: ErrorCategory| #[trigger]
                    category_text(known) == row.error_category->0
            }
        },
{
    lemma_outcomes_are_distinct();
    if let Some(text) = row.error_category {
        law_categories_are_read_from_their_texts(text, category);
        if let Some(found) = category_for_text(text) {
            law_categories_are_read_from_their_texts(text, found);
            assert(category_text(found) == text);
        }
    }
}

/// What is told of a row that holds no record: the first of its columns that is at fault.
pub proof fn law_the_first_column_at_fault_is_told(row: HealthRowModel, quote: SourceRowModel)
    ensures
        ({
            let dated = row.attempt_outcome == "success"@ || row.attempt_outcome == "failure"@;
            let category = row.error_category;
            &&& !dated ==> health_fault(row) == "Query is not read-only"@
            &&& dated && row.attempted_at_unix is None ==> health_fault(row)
                == "Invalid column type Null at index: "@ + decimal(2) + ", name: "@
                + "attempted_at_unix"@
            &&& dated && row.attempted_at_unix is Some && category is None ==> health_fault(row)
                == "Invalid column type Null at index: "@ + decimal(3) + ", name: "@
                + "error_category"@
            &&& dated && row.attempted_at_unix is Some && category is Some && category_for_text(
                category->0,
            ) is None ==> health_fault(row) == "Conversion error from type Text at index: "@
                + decimal(3) + ", "@ + unknown_word(category->0, category_words())
            &&& dated && row.attempted_at_unix is Some && category is Some && category_for_text(
                category->0,
            ) is Some ==> health_fault(row) == "Invalid column type Null at index: "@ + decimal(4)
                + ", name: "@ + "error_message"@
            &&& row_fault(quote) == "Conversion error from type Text at index: "@ + decimal(3)
                + ", "@ + unknown_word(quote.quote_kind, quote_kind_words())
        }),
{
}

/// A snapshot is older than another by its time and, saved at the same time, by its number.
pub proof fn law_snapshots_are_older_by_time_and_number(a: SnapshotKey, b: SnapshotKey)
    ensures
        a.fetched_at_unix < b.fetched_at_unix ==> older(a, b) && !older(b, a),
        a.fetched_at_unix == b.fetched_at_unix ==> (older(a, b) <==> a.id < b.id),
{
}

/// Health starts as unknown for each provider, in configured order.
pub proof fn law_health_starts_as_unknown(source: UpstreamSource)
    ensures
        unknown_health().len() == 4,
        unknown_health()[source.position() as int].source == source_name(source),
        unknown_health()[source.position() as int].last_attempt is Unknown,
{
    assert(all_sources()[source.position() as int] == source);
}

/// What startup says of a layout names its version and the supported one.
pub proof fn law_unsupported_versions_are_named(version: int)
    ensures
        unsupported_version_text(version) == "unsupported SQLite schema version "@
            + signed_decimal(version) + "; supported version is "@ + signed_decimal(1),
{
}

/// Lists are laid out and read row by row, in order, and each is readable where every row is.
pub proof fn law_lists_are_taken_row_by_row(
    records: Seq<HealthModel>,
    health: Seq<HealthRowModel>,
    rows: Seq<SourceRowModel>,
    i: int,
)
    ensures
        health_rows_for(records).len() == records.len(),
        0 <= i < records.len() ==> health_rows_for(records)[i] == health_row_for(records[i]),
        all_health_in(health).len() == health.len(),
        0 <= i < health.len() && health_in(health[i]) is Some ==> Some(all_health_in(health)[i])
            == health_in(health[i]),
        all_health_readable(health) <==> forall|j: int|
            0 <= j < health.len() ==> health_in(#[trigger] health[j]) is Some,
        all_readable(rows) <==> forall|j: int|
            0 <= j < rows.len() ==> readable_row(#[trigger] rows[j]),
{
}

/// Health records stand in the order of their names where none stands behind one of a later name.
pub proof fn law_health_stands_in_the_order_of_names(records: Seq<HealthModel>, i: int, j: int)
    requires
        health_by_name(records),
        0 <= i < j < records.len(),
    ensures
        !name_before(records[j].source, records[i].source),
{
}

/// Of rows that hold nothing, the one is reported before whose name no other such row's name
/// stands.
pub proof fn law_the_first_name_at_fault_is_reported(
    rows: Seq<SourceRowModel>,
    health: Seq<HealthRowModel>,
    i: int,
    j: int,
)
    ensures
        first_unreadable(rows, i) ==> {
            &&& 0 <= i < rows.len()
            &&& !readable_row(rows[i])
            &&& 0 <= j < rows.len() && !readable_row(rows[j]) ==> !name_before(
                rows[j].source,
                rows[i].source,
            )
        },
        first_unreadable_health(health, i) ==> {
            &&& 0 <= i < health.len()
            &&& health_in(health[i]) is None
            &&& 0 <= j < health.len() && health_in(health[j]) is None ==> !name_before(
                health[j].source,
                health[i].source,
            )
        },
{
}

/// What a row holds is what each of its columns holds.
pub proof fn law_rows_hold_their_columns(
    row: SourceRow,
    health: HealthRow,
    rows: Seq<SourceRow>,
    records: Seq<HealthRow>,
    i: int,
)
    ensures
        row@.source == row.source@,
        row@.price_usd == row.price_usd,
        row@.last_success_at_unix == row.last_success_at_unix,
        row@.quote_kind == row.quote_kind@,
        health@.source == health.source@,
        health@.attempt_outcome == health.attempt_outcome@,
        health@.attempted_at_unix == health.attempted_at_unix,
        health@.error_category == optional_text(health.error_category),
        health@.error_message == optional_text(health.error_message),
        health@.http_status == health.http_status,
        source_row_models(rows).len() == rows.len(),
        0 <= i < rows.len() ==> source_row_models(rows)[i] == rows[i]@,
        health_row_models(records).len() == records.len(),
        0 <= i < records.len() ==> health_row_models(records)[i] == records[i]@,
{
}

} // verus!
