//! From provider answers to a merged snapshot.
use crate::body::{append_chunk, declared_length_fits, MAX_PROVIDER_BYTES};
use crate::errors::{
    http_date_seconds, retry_hint, ProviderError, ProviderErrorKind, RetryAfter,
};
use crate::json::{json_contents, json_document, json_node, parse_json, JsonNode, NodeModel};
use crate::models::SourcePrice;
use crate::price::Price;
use crate::sources::{source_name, UpstreamSource};
use crate::text::{
    ascii_chars, same_letters, same_text, same_text_ignoring_case, trimmed,
};
use vstd::prelude::*;

verus! {

/// The wish that a `Retry-After` header expresses, where there is one.
pub open spec fn header_hint(header: Option<Seq<u8>>) -> Option<RetryAfter> {
    match header {
        Some(value) => retry_hint(value, http_date_seconds(ascii_chars(trimmed(value)))),
        None => None,
    }
}

/// The bytes of an optional header value.
pub open spec fn optional_bytes(value: Option<&[u8]>) -> Option<Seq<u8>> {
    match value {
        Some(value) => Some(value@),
        None => None,
    }
}

/// Accepts an answer with a success status; any other is an HTTP failure, with the provider's
/// wish to be left alone.
pub fn check_status(provider: UpstreamSource, status: u16, retry_after: Option<&[u8]>) -> (checked:
    Result<(), ProviderError>)
    requires
        100 <= status <= 999,
    ensures
        match checked {
            Ok(()) => 200 <= status <= 299,
            Err(error) => {
                &&& !(200 <= status <= 299)
                &&& error.provider == provider
                &&& error.kind == (ProviderErrorKind::Http {
                    status,
                    retry_after: header_hint(optional_bytes(retry_after)),
                })
                &&& error.presentable()
            },
        },
{
    if 200 <= status && status <= 299 {
        return Ok(());
    }
    let hint = match retry_after {
        Some(value) => RetryAfter::parse(value),
        None => None,
    };
    Err(ProviderError { provider, kind: ProviderErrorKind::Http { status, retry_after: hint } })
}

/// The failure of an answer whose body is over the size limit.
pub open spec fn oversized(provider: UpstreamSource) -> ProviderError {
    ProviderError {
        provider,
        kind: ProviderErrorKind::InvalidPayload {
            reason: "response exceeded size limit",
            cause: None,
        },
    }
}

/// What is wrong with an answer before its body is received: its status, or else the length that
/// it declares.
pub open spec fn head_fault(
    provider: UpstreamSource,
    status: u16,
    retry_after: Option<Seq<u8>>,
    declared: Option<u64>,
) -> Option<ProviderError> {
    if !(200 <= status <= 299) {
        Some(
            ProviderError {
                provider,
                kind: ProviderErrorKind::Http { status, retry_after: header_hint(retry_after) },
            },
        )
    } else if declared matches Some(length) && length > MAX_PROVIDER_BYTES {
        Some(oversized(provider))
    } else {
        None
    }
}

/// A provider's answer whose body is being received.
#[derive(Debug, PartialEq)]
pub struct ProviderResponse {
    pub provider: UpstreamSource,
    /// What has been received of the body.
    pub body: Vec<u8>,
}

impl ProviderResponse {
    /// Whether what has been received is within the size limit.
    pub open spec fn wf(self) -> bool {
        self.body@.len() <= MAX_PROVIDER_BYTES
    }

    /// Starts to receive an answer with a success status and without a declared length over the
    /// size limit; any other is refused.
    pub fn open(
        provider: UpstreamSource,
        status: u16,
        retry_after: Option<&[u8]>,
        declared: Option<u64>,
    ) -> (response: Result<ProviderResponse, ProviderError>)
        requires
            100 <= status <= 999,
        ensures
            match head_fault(provider, status, optional_bytes(retry_after), declared) {
                Some(error) => response == Err::<ProviderResponse, ProviderError>(error)
                    && error.presentable(),
                None => {
                    &&& response matches Ok(response)
                    &&& response.provider == provider
                    &&& response.body@ == Seq::<u8>::empty()
                    &&& response.wf()
                },
            },
    {
        match check_status(provider, status, retry_after) {
            Ok(()) => {},
            Err(error) => {
                return Err(error);
            },
        }
        if !declared_length_fits(declared, MAX_PROVIDER_BYTES) {
            return Err(ProviderError::oversized_response(provider));
        }
        Ok(ProviderResponse { provider, body: Vec::new() })
    }

    /// Receives a chunk of the body, where the body stays within the size limit.
    pub fn receive(&mut self, chunk: &[u8]) -> (received: Result<(), ProviderError>)
        requires
            old(self).wf(),
        ensures
            match extended(Some(old(self).body@), chunk@) {
                Some(longer) => received is Ok && final(self).body@ == longer,
                None => {
                    &&& received == Err::<(), ProviderError>(oversized(old(self).provider))
                    &&& final(self).body@ == old(self).body@
                },
            },
            final(self).provider == old(self).provider,
            final(self).wf(),
    {
        if append_chunk(&mut self.body, chunk, MAX_PROVIDER_BYTES) {
            Ok(())
        } else {
            Err(ProviderError::oversized_response(self.provider))
        }
    }

    /// Reads the price from the received body.
    pub fn finish(&self) -> (reading: Result<PriceReading, ProviderError>)
        ensures
            match json_document(self.body@) {
                Ok(document) => reads(
                    reading,
                    self.provider,
                    payload_in(self.provider, document),
                ),
                Err(fault) => refuses_json(reading, self.provider, fault),
            },
            reading matches Err(error) ==> error.presentable(),
    {
        read_body(self.provider, self.body.as_slice())
    }
}

/// A body with one more chunk, where it stays within the size limit.
pub open spec fn extended(body: Option<Seq<u8>>, chunk: Seq<u8>) -> Option<Seq<u8>> {
    match body {
        Some(body) => if body.len() + chunk.len() <= MAX_PROVIDER_BYTES {
            Some(body + chunk)
        } else {
            None
        },
        None => None,
    }
}

/// The body that chunks make up, where each of them was accepted.
pub open spec fn received_body(chunks: Seq<Seq<u8>>) -> Option<Seq<u8>>
    decreases chunks.len(),
{
    if chunks.len() == 0 {
        Some(Seq::empty())
    } else {
        extended(received_body(chunks.drop_last()), chunks.last())
    }
}

/// However a body is cut into chunks, it is received as a whole where it is within the size limit,
/// and refused where it is not.
pub proof fn law_received_bodies_are_bounded(chunks: Seq<Seq<u8>>)
    ensures
        received_body(chunks) == if chunks.flatten().len() <= MAX_PROVIDER_BYTES {
            Some(chunks.flatten())
        } else {
            None
        },
    decreases chunks.len(),
{
    if chunks.len() > 0 {
        let before = chunks.drop_last();
        law_received_bodies_are_bounded(before);
        assert(chunks =~= before.push(chunks.last()));
        before.lemma_flatten_push(chunks.last());
    }
}

/// What the adapters look at in a provider's payload.
#[derive(Debug, PartialEq)]
pub struct ProviderPayload {
    /// The node that holds the price.
    pub amount: Option<JsonNode>,
    /// Kraken's list of reported errors.
    pub errors: Option<JsonNode>,
    /// Kraken's entry for the market.
    pub entry: Option<JsonNode>,
    /// Kraken's list that starts with the price.
    pub close: Option<JsonNode>,
    /// Coinbase's quote currency.
    pub currency: Option<JsonNode>,
    /// Coinbase's base currency.
    pub base: Option<JsonNode>,
    /// Gemini's market.
    pub symbol: Option<JsonNode>,
}

/// What a payload holds.
pub struct PayloadModel {
    pub amount: Option<NodeModel>,
    pub errors: Option<NodeModel>,
    pub entry: Option<NodeModel>,
    pub close: Option<NodeModel>,
    pub currency: Option<NodeModel>,
    pub base: Option<NodeModel>,
    pub symbol: Option<NodeModel>,
}

/// What an optional node holds.
pub open spec fn optional_node(node: Option<JsonNode>) -> Option<NodeModel> {
    match node {
        Some(node) => Some(node@),
        None => None,
    }
}

impl View for ProviderPayload {
    type V = PayloadModel;

    open spec fn view(&self) -> PayloadModel {
        PayloadModel {
            amount: optional_node(self.amount),
            errors: optional_node(self.errors),
            entry: optional_node(self.entry),
            close: optional_node(self.close),
            currency: optional_node(self.currency),
            base: optional_node(self.base),
            symbol: optional_node(self.symbol),
        }
    }
}

/// The pointer to a provider's price.
pub open spec fn amount_pointer(provider: UpstreamSource) -> Seq<char> {
    match provider {
        UpstreamSource::CoinGecko => "/bitcoin/usd"@,
        UpstreamSource::Coinbase => "/data/amount"@,
        UpstreamSource::Kraken => "/result/XXBTZUSD/c/0"@,
        UpstreamSource::Gemini => "/bid"@,
    }
}

/// The node under a pointer of a document.
pub open spec fn node_at(document: Map<Seq<char>, NodeModel>, pointer: Seq<char>) -> Option<
    NodeModel,
> {
    if document.contains_key(pointer) {
        Some(document[pointer])
    } else {
        None
    }
}

/// What the adapters look at in a document.
pub open spec fn payload_in(
    provider: UpstreamSource,
    document: Map<Seq<char>, NodeModel>,
) -> PayloadModel {
    PayloadModel {
        amount: node_at(document, amount_pointer(provider)),
        errors: node_at(document, "/error"@),
        entry: node_at(document, "/result/XXBTZUSD"@),
        close: node_at(document, "/result/XXBTZUSD/c"@),
        currency: node_at(document, "/data/currency"@),
        base: node_at(document, "/data/base"@),
        symbol: node_at(document, "/symbol"@),
    }
}

/// Picks what the adapters look at from a document.
fn payload_from(provider: UpstreamSource, value: &serde_json::Value) -> (payload: ProviderPayload)
    ensures
        payload@ == payload_in(provider, json_contents(*value)),
{
    let pointer = match provider {
        UpstreamSource::CoinGecko => "/bitcoin/usd",
        UpstreamSource::Coinbase => "/data/amount",
        UpstreamSource::Kraken => "/result/XXBTZUSD/c/0",
        UpstreamSource::Gemini => "/bid",
    };
    ProviderPayload {
        amount: json_node(value, pointer),
        errors: json_node(value, "/error"),
        entry: json_node(value, "/result/XXBTZUSD"),
        close: json_node(value, "/result/XXBTZUSD/c"),
        currency: json_node(value, "/data/currency"),
        base: json_node(value, "/data/base"),
        symbol: json_node(value, "/symbol"),
    }
}

/// A provider's price as it is written, with what speaks against the market it is from.
#[derive(Debug, PartialEq)]
pub struct PriceReading {
    pub amount: String,
    pub market_fault: Option<&'static str>,
}

/// The price as it is written in a payload, or what is wrong with the payload.
pub open spec fn amount_in(provider: UpstreamSource, payload: PayloadModel) -> Result<
    Seq<char>,
    &'static str,
> {
    match provider {
        UpstreamSource::CoinGecko => match payload.amount {
            Some(NodeModel::Number(text)) => Ok(text),
            _ => Err("missing numeric bitcoin.usd"),
        },
        UpstreamSource::Coinbase => match payload.amount {
            Some(NodeModel::Text(text)) => Ok(text),
            _ => Err("missing string data.amount"),
        },
        UpstreamSource::Kraken => if payload.errors matches Some(NodeModel::Array(length)) && length
            > 0 {
            Err("API error reported")
        } else if payload.entry is None {
            Err("missing result entry")
        } else if payload.close matches Some(NodeModel::Array(_)) {
            match payload.amount {
                Some(NodeModel::Text(text)) => Ok(text),
                _ => Err("missing string result.*.c[0]"),
            }
        } else {
            Err("missing string result.*.c[0]")
        },
        UpstreamSource::Gemini => match payload.amount {
            Some(NodeModel::Text(text)) => Ok(text),
            _ => Err("missing string bid"),
        },
    }
}

/// Whether an optional node is a given text.
pub open spec fn is_text(node: Option<NodeModel>, text: Seq<char>) -> bool {
    node matches Some(NodeModel::Text(found)) && found == text
}

/// What speaks against the market of a payload.
pub open spec fn market_fault_in(provider: UpstreamSource, payload: PayloadModel) -> Option<
    &'static str,
> {
    match provider {
        UpstreamSource::CoinGecko => None,
        UpstreamSource::Coinbase => if !is_text(payload.currency, "USD"@) {
            Some("currency is not USD")
        } else if payload.base is Some && !is_text(payload.base, "BTC"@) {
            Some("base is not BTC")
        } else {
            None
        },
        UpstreamSource::Kraken => match payload.errors {
            Some(NodeModel::Array(length)) => if length == 0 {
                None
            } else {
                Some("API error reported")
            },
            _ => Some("missing empty error list"),
        },
        UpstreamSource::Gemini => match payload.symbol {
            Some(NodeModel::Text(symbol)) => if same_letters(symbol, "BTCUSD"@) {
                None
            } else {
                Some("symbol is not BTCUSD")
            },
            _ => Some("symbol is not BTCUSD"),
        },
    }
}

/// Whether a reading is that of a payload.
pub open spec fn reads(
    reading: Result<PriceReading, ProviderError>,
    provider: UpstreamSource,
    payload: PayloadModel,
) -> bool {
    match amount_in(provider, payload) {
        Ok(amount) => {
            &&& reading matches Ok(reading)
            &&& reading.amount@ == amount
            &&& reading.market_fault == market_fault_in(provider, payload)
        },
        Err(reason) => reading == Err::<PriceReading, ProviderError>(
            ProviderError {
                provider,
                kind: ProviderErrorKind::InvalidPayload { reason, cause: None },
            },
        ),
    }
}

/// The text of a node that is one.
fn text_of(node: &Option<JsonNode>) -> (text: Option<String>)
    ensures
        match text {
            Some(text) => optional_node(*node) == Some(NodeModel::Text(text@)),
            None => !(optional_node(*node) matches Some(NodeModel::Text(_))),
        },
{
    match node {
        Some(JsonNode::Text(text)) => Some(text.clone()),
        _ => None,
    }
}

/// Whether an optional node is a given text.
fn holds_text(node: &Option<JsonNode>, text: &str) -> (yes: bool)
    ensures
        yes == is_text(optional_node(*node), text@),
{
    match node {
        Some(JsonNode::Text(found)) => same_text(found.as_str(), text),
        _ => false,
    }
}

/// Reads a payload: the price as it is written, and whether the market is the right one.
pub fn read_payload(provider: UpstreamSource, payload: &ProviderPayload) -> (reading: Result<
    PriceReading,
    ProviderError,
>)
    ensures
        reads(reading, provider, payload@),
{
    let listed = match payload.close {
        Some(JsonNode::Array(_)) => true,
        _ => false,
    };
    let reported = match payload.errors {
        Some(JsonNode::Array(length)) => length > 0,
        _ => false,
    };
    let amount = match provider {
        UpstreamSource::CoinGecko => match &payload.amount {
            Some(JsonNode::Number(text)) => Ok(text.clone()),
            _ => Err("missing numeric bitcoin.usd"),
        },
        UpstreamSource::Coinbase => match text_of(&payload.amount) {
            Some(text) => Ok(text),
            None => Err("missing string data.amount"),
        },
        UpstreamSource::Kraken => if reported {
            Err("API error reported")
        } else if payload.entry.is_none() {
            Err("missing result entry")
        } else {
            match text_of(&payload.amount) {
                Some(text) => if listed {
                    Ok(text)
                } else {
                    Err("missing string result.*.c[0]")
                },
                None => Err("missing string result.*.c[0]"),
            }
        },
        UpstreamSource::Gemini => match text_of(&payload.amount) {
            Some(text) => Ok(text),
            None => Err("missing string bid"),
        },
    };
    match amount {
        Ok(amount) => Ok(
            PriceReading { amount, market_fault: find_market_fault(provider, payload) },
        ),
        Err(reason) => Err(ProviderError::invalid_payload(provider, reason)),
    }
}

/// What speaks against the market of a payload.
fn find_market_fault(provider: UpstreamSource, payload: &ProviderPayload) -> (fault: Option<
    &'static str,
>)
    ensures
        fault == market_fault_in(provider, payload@),
{
    match provider {
        UpstreamSource::CoinGecko => None,
        UpstreamSource::Coinbase => if !holds_text(&payload.currency, "USD") {
            Some("currency is not USD")
        } else if payload.base.is_some() && !holds_text(&payload.base, "BTC") {
            Some("base is not BTC")
        } else {
            None
        },
        UpstreamSource::Kraken => match payload.errors {
            Some(JsonNode::Array(length)) => if length == 0 {
                None
            } else {
                Some("API error reported")
            },
            _ => Some("missing empty error list"),
        },
        UpstreamSource::Gemini => match &payload.symbol {
            Some(JsonNode::Text(symbol)) => if same_text_ignoring_case(symbol.as_str(), "BTCUSD") {
                None
            } else {
                Some("symbol is not BTCUSD")
            },
            _ => Some("symbol is not BTCUSD"),
        },
    }
}

/// Whether a reading is the refusal of a body that is no JSON, with the parser's fault as cause.
pub open spec fn refuses_json(
    reading: Result<PriceReading, ProviderError>,
    provider: UpstreamSource,
    fault: Seq<char>,
) -> bool {
    &&& reading matches Err(error)
    &&& error.provider == provider
    &&& error.kind matches ProviderErrorKind::InvalidPayload { reason, cause: Some(cause) }
    &&& reason == "invalid JSON"
    &&& cause@ == fault
}

/// Reads the body of a successful answer.
pub fn read_body(provider: UpstreamSource, body: &[u8]) -> (reading: Result<
    PriceReading,
    ProviderError,
>)
    ensures
        match json_document(body@) {
            Ok(document) => reads(reading, provider, payload_in(provider, document)),
            Err(fault) => refuses_json(reading, provider, fault),
        },
        reading matches Err(error) ==> error.presentable(),
{
    match parse_json(body) {
        Ok(value) => read_payload(provider, &payload_from(provider, &value)),
        Err(fault) => Err(ProviderError::from_request(provider, false, true, fault)),
    }
}

/// The name of the field that holds a provider's price.
pub open spec fn price_field(provider: UpstreamSource) -> &'static str {
    match provider {
        UpstreamSource::CoinGecko => "bitcoin.usd",
        UpstreamSource::Coinbase => "data.amount",
        UpstreamSource::Kraken => "result.*.c[0]",
        UpstreamSource::Gemini => "bid",
    }
}

/// What is wrong with a reading whose amount denotes a number, or none.
pub open spec fn price_fault(
    provider: UpstreamSource,
    market_fault: Option<&'static str>,
    number: Option<Price>,
) -> Option<ProviderErrorKind> {
    let field = price_field(provider);
    match number {
        None => Some(ProviderErrorKind::InvalidPrice { field, reason: "not a number" }),
        Some(price) => if !price.usable() {
            Some(
                ProviderErrorKind::InvalidPrice {
                    field,
                    reason: "expected a finite positive number",
                },
            )
        } else {
            match market_fault {
                Some(reason) => Some(ProviderErrorKind::InvalidPayload { reason, cause: None }),
                None => None,
            }
        },
    }
}

/// Accepts a price: the number that the amount denotes must be finite and positive, and nothing
/// may speak against the market.
pub fn checked_price(provider: UpstreamSource, reading: &PriceReading, number: Option<Price>) -> (
price: Result<SourcePrice, ProviderError>)
    ensures
        match price {
            Ok(price) => {
                &&& price_fault(provider, reading.market_fault, number) is None
                &&& price.source@ == source_name(provider)
                &&& number == Some(price.price_usd)
            },
            Err(error) => {
                &&& error.provider == provider
                &&& price_fault(provider, reading.market_fault, number) == Some(error.kind)
                &&& error.presentable()
            },
        },
{
    let field = match provider {
        UpstreamSource::CoinGecko => "bitcoin.usd",
        UpstreamSource::Coinbase => "data.amount",
        UpstreamSource::Kraken => "result.*.c[0]",
        UpstreamSource::Gemini => "bid",
    };
    match number {
        None => Err(ProviderError::invalid_price(provider, field, "not a number")),
        Some(price) => if !price.is_usable() {
            Err(
                ProviderError::invalid_price(provider, field, "expected a finite positive number"),
            )
        } else {
            match reading.market_fault {
                Some(reason) => Err(ProviderError::invalid_payload(provider, reason)),
                None => Ok(
                    SourcePrice { source: provider.name().to_owned(), price_usd: price },
                ),
            }
        },
    }
}

/// Whether a document holds a text under a pointer.
pub open spec fn holds_text_at(
    document: Map<Seq<char>, NodeModel>,
    pointer: Seq<char>,
    text: Seq<char>,
) -> bool {
    document.contains_key(pointer) && document[pointer] == NodeModel::Text(text)
}

/// A price is read from the one place where its provider documents it, whatever else the document
/// holds: CoinGecko's number at `bitcoin.usd`, Coinbase's text at `data.amount`, the first text of
/// Kraken's list of the `XXBTZUSD` entry, Gemini's text at `bid`.
pub proof fn law_amounts_stand_in_their_place(
    reading: Result<PriceReading, ProviderError>,
    provider: UpstreamSource,
    document: Map<Seq<char>, NodeModel>,
)
    requires
        reads(reading, provider, payload_in(provider, document)),
    ensures
        reading matches Ok(reading) ==> match provider {
            UpstreamSource::CoinGecko => document.contains_key("/bitcoin/usd"@)
                && document["/bitcoin/usd"@] == NodeModel::Number(reading.amount@),
            UpstreamSource::Coinbase => holds_text_at(
                document,
                "/data/amount"@,
                reading.amount@,
            ),
            UpstreamSource::Kraken => holds_text_at(
                document,
                "/result/XXBTZUSD/c/0"@,
                reading.amount@,
            ),
            UpstreamSource::Gemini => holds_text_at(document, "/bid"@, reading.amount@),
        },
{
}

/// A price is read wherever it stands in its place; for Kraken the place must be a list, and no
/// errors may be reported. Where none is read, the failure is the provider's, names what is missing
/// and has no cause.
pub proof fn law_amounts_in_their_place_are_read(
    reading: Result<PriceReading, ProviderError>,
    provider: UpstreamSource,
    document: Map<Seq<char>, NodeModel>,
    text: Seq<char>,
)
    requires
        reads(reading, provider, payload_in(provider, document)),
    ensures
        provider == UpstreamSource::CoinGecko ==> {
            &&& document.contains_key("/bitcoin/usd"@) && document["/bitcoin/usd"@]
                == NodeModel::Number(text) ==> reading is Ok
            &&& reading is Err ==> refuses_payload(reading, provider, "missing numeric bitcoin.usd")
        },
        provider == UpstreamSource::Coinbase ==> {
            &&& holds_text_at(document, "/data/amount"@, text) ==> reading is Ok
            &&& reading is Err ==> refuses_payload(reading, provider, "missing string data.amount")
        },
        provider == UpstreamSource::Gemini ==> {
            &&& holds_text_at(document, "/bid"@, text) ==> reading is Ok
            &&& reading is Err ==> refuses_payload(reading, provider, "missing string bid")
        },
        provider == UpstreamSource::Kraken ==> {
            let reported = document.contains_key("/error"@) && document["/error"@] is Array
                && document["/error"@]->Array_0 > 0;
            let listed = document.contains_key("/result/XXBTZUSD/c"@)
                && document["/result/XXBTZUSD/c"@] is Array;
            &&& !reported && document.contains_key("/result/XXBTZUSD"@) && listed && holds_text_at(
                document,
                "/result/XXBTZUSD/c/0"@,
                text,
            ) ==> reading is Ok
            &&& reading is Ok ==> !reported && document.contains_key("/result/XXBTZUSD"@) && listed
            &&& reported ==> refuses_payload(reading, provider, "API error reported")
            &&& !reported && !document.contains_key("/result/XXBTZUSD"@) ==> refuses_payload(
                reading,
                provider,
                "missing result entry",
            )
            &&& !reported && document.contains_key("/result/XXBTZUSD"@) && reading is Err
                ==> refuses_payload(reading, provider, "missing string result.*.c[0]")
        },
{
}

/// Whether a reading is the refusal of a payload for a reason, without a cause.
pub open spec fn refuses_payload(
    reading: Result<PriceReading, ProviderError>,
    provider: UpstreamSource,
    reason: &'static str,
) -> bool {
    &&& reading is Err
    &&& reading->Err_0.provider == provider
    &&& reading->Err_0.kind == (ProviderErrorKind::InvalidPayload { reason, cause: None })
}

/// The market of a price that is read. Coinbase must quote in USD and, where it names what it
/// quotes, BTC; Kraken must report an empty list of errors; Gemini must name BTCUSD, in letters of
/// any case. CoinGecko's place names the market itself.
pub proof fn law_markets_are_checked(
    reading: Result<PriceReading, ProviderError>,
    provider: UpstreamSource,
    document: Map<Seq<char>, NodeModel>,
)
    requires
        reads(reading, provider, payload_in(provider, document)),
    ensures
        reading matches Ok(reading) ==> match provider {
            UpstreamSource::CoinGecko => reading.market_fault is None,
            UpstreamSource::Coinbase => {
                let dollars = holds_text_at(document, "/data/currency"@, "USD"@);
                let bitcoin = !document.contains_key("/data/base"@) || document["/data/base"@]
                    == NodeModel::Text("BTC"@);
                &&& dollars && bitcoin ==> reading.market_fault is None
                &&& !dollars ==> reading.market_fault == Some("currency is not USD")
                &&& dollars && !bitcoin ==> reading.market_fault == Some("base is not BTC")
            },
            UpstreamSource::Kraken => {
                let empty = document.contains_key("/error"@) && document["/error"@]
                    == NodeModel::Array(0);
                &&& empty ==> reading.market_fault is None
                &&& !empty ==> reading.market_fault == Some("missing empty error list")
            },
            UpstreamSource::Gemini => {
                let named = document.contains_key("/symbol"@) && document["/symbol"@] is Text
                    && same_letters(document["/symbol"@]->Text_0, "BTCUSD"@);
                &&& named ==> reading.market_fault is None
                &&& !named ==> reading.market_fault == Some("symbol is not BTCUSD")
            },
        },
{
}

/// The pointers that are looked at in the documents of a provider.
pub open spec fn looked_at(provider: UpstreamSource, pointer: Seq<char>) -> bool {
    match provider {
        UpstreamSource::CoinGecko => pointer == "/bitcoin/usd"@,
        UpstreamSource::Coinbase => {
            ||| pointer == "/data/amount"@
            ||| pointer == "/data/currency"@
            ||| pointer == "/data/base"@
        },
        UpstreamSource::Kraken => {
            ||| pointer == "/error"@
            ||| pointer == "/result/XXBTZUSD"@
            ||| pointer == "/result/XXBTZUSD/c"@
            ||| pointer == "/result/XXBTZUSD/c/0"@
        },
        UpstreamSource::Gemini => pointer == "/bid"@ || pointer == "/symbol"@,
    }
}

/// Documents that agree on what is looked at are read alike, whatever else they hold.
pub proof fn law_nothing_else_is_looked_at(
    provider: UpstreamSource,
    one: Map<Seq<char>, NodeModel>,
    other: Map<Seq<char>, NodeModel>,
    first: Result<PriceReading, ProviderError>,
    second: Result<PriceReading, ProviderError>,
)
    requires
        reads(first, provider, payload_in(provider, one)),
        reads(second, provider, payload_in(provider, other)),
        forall|pointer: Seq<char>| #[trigger]
            looked_at(provider, pointer) ==> {
                &&& one.contains_key(pointer) <==> other.contains_key(pointer)
                &&& one.contains_key(pointer) ==> one[pointer] == other[pointer]
            },
    ensures
        first is Ok <==> second is Ok,
        first matches Ok(reading) ==> {
            &&& reading.amount@ == second->Ok_0.amount@
            &&& reading.market_fault == second->Ok_0.market_fault
        },
        first matches Err(error) ==> error == second->Err_0,
{
    assert(looked_at(provider, amount_pointer(provider)));
    if provider == UpstreamSource::Coinbase {
        assert(looked_at(provider, "/data/currency"@));
        assert(looked_at(provider, "/data/base"@));
    }
    if provider == UpstreamSource::Kraken {
        assert(looked_at(provider, "/error"@));
        assert(looked_at(provider, "/result/XXBTZUSD"@));
        assert(looked_at(provider, "/result/XXBTZUSD/c"@));
    }
    if provider == UpstreamSource::Gemini {
        assert(looked_at(provider, "/symbol"@));
    }
}

/// A price is accepted where its amount denotes a finite positive number and nothing speaks against
/// its market. Else the number is at fault before the market is, in the field that the provider
/// documents.
pub proof fn law_prices_are_finite_positive_and_of_the_market(
    provider: UpstreamSource,
    market_fault: Option<&'static str>,
    number: Option<Price>,
)
    ensures
        price_fault(provider, market_fault, number) is None <==> {
            &&& number is Some
            &&& number->0.usable()
            &&& market_fault is None
        },
        price_fault(provider, market_fault, number) matches Some(kind) ==> {
            let field = match provider {
                UpstreamSource::CoinGecko => "bitcoin.usd",
                UpstreamSource::Coinbase => "data.amount",
                UpstreamSource::Kraken => "result.*.c[0]",
                UpstreamSource::Gemini => "bid",
            };
            &&& number is None ==> kind == (ProviderErrorKind::InvalidPrice {
                field,
                reason: "not a number",
            })
            &&& number is Some && !number->0.usable() ==> kind == (
            ProviderErrorKind::InvalidPrice { field, reason: "expected a finite positive number" })
            &&& number is Some && number->0.usable() ==> kind == (
            ProviderErrorKind::InvalidPayload { reason: market_fault->0, cause: None })
        },
{
}

/// A body that is no JSON is refused as such, with the parser's fault as the cause.
pub proof fn law_malformed_bodies_keep_their_cause(
    reading: Result<PriceReading, ProviderError>,
    provider: UpstreamSource,
    fault: Seq<char>,
)
    requires
        refuses_json(reading, provider, fault),
    ensures
        reading is Err,
        reading->Err_0.provider == provider,
        reading->Err_0.kind matches ProviderErrorKind::InvalidPayload { reason, cause } && reason
            == "invalid JSON" && cause is Some && (cause->0)@ == fault,
{
}

/// An answer is received where its status is a success and the length that it declares, if any, is
/// at most 65536 bytes. Else the status is at fault before the length is, with the delay that the
/// provider asks for.
pub proof fn law_only_successful_short_answers_are_received(
    provider: UpstreamSource,
    status: u16,
    retry_after: Option<Seq<u8>>,
    declared: Option<u64>,
)
    ensures
        head_fault(provider, status, retry_after, declared) is None <==> {
            &&& 200 <= status < 300
            &&& declared is None || declared->0 <= 65536
        },
        head_fault(provider, status, retry_after, declared) matches Some(error) ==> {
            &&& error.provider == provider
            &&& 200 <= status < 300 ==> error.kind == (ProviderErrorKind::InvalidPayload {
                reason: "response exceeded size limit",
                cause: None,
            })
            &&& !(200 <= status < 300) ==> {
                &&& error.kind matches ProviderErrorKind::Http { status: code, retry_after: hint }
                &&& code == status
                &&& retry_after is None ==> hint is None
                &&& retry_after matches Some(value) ==> hint == retry_hint(
                    value,
                    http_date_seconds(ascii_chars(trimmed(value))),
                )
            }
        },
{
}

/// What a payload holds is what each of its nodes holds.
pub proof fn law_payloads_hold_their_nodes(payload: ProviderPayload, node: JsonNode, value: &[u8])
    ensures
        payload@.amount == optional_node(payload.amount),
        payload@.errors == optional_node(payload.errors),
        payload@.entry == optional_node(payload.entry),
        payload@.close == optional_node(payload.close),
        payload@.currency == optional_node(payload.currency),
        payload@.base == optional_node(payload.base),
        payload@.symbol == optional_node(payload.symbol),
        optional_node(None) is None,
        optional_node(Some(node)) == Some(node@),
        match node {
            JsonNode::Null => node@ is Null,
            JsonNode::Bool(truth) => node@ == NodeModel::Bool(truth),
            JsonNode::Number(text) => node@ == NodeModel::Number(text@),
            JsonNode::Text(text) => node@ == NodeModel::Text(text@),
            JsonNode::Array(length) => node@ == NodeModel::Array(length),
            JsonNode::Object => node@ is Object,
        },
        optional_bytes(None) is None,
        optional_bytes(Some(value)) == Some(value@),
        header_hint(None) is None,
        header_hint(Some(value@)) == retry_hint(
            value@,
            http_date_seconds(ascii_chars(trimmed(value@))),
        ),
{
}

} // verus!
