//! Stored snapshots and the request and reply bodies of the presence endpoint.
pub mod source_contract;

use crate::models::source_contract::{
    health_models, quote_models, text_models, HealthModel, ProviderHealth, QuoteModel,
    StoredQuote,
};
use crate::price::Price;
use vstd::prelude::*;

verus! {

/// A price that a provider has just quoted.
#[derive(Debug, PartialEq)]
pub struct SourcePrice {
    pub source: String,
    pub price_usd: Price,
}

/// The quotes that one refresh has saved, with their summary.
#[derive(Debug, PartialEq)]
pub struct SnapshotRecord {
    pub fetched_at_unix: i64,
    pub sources: Vec<StoredQuote>,
    pub average_price: Option<Price>,
    pub spread: Option<Price>,
    pub warnings: Vec<String>,
    pub refreshed_source: Option<String>,
}

/// What a snapshot record holds.
#[verifier::ext_equal]
pub struct SnapshotModel {
    pub fetched_at_unix: i64,
    pub sources: Seq<QuoteModel>,
    pub average_price: Option<Price>,
    pub spread: Option<Price>,
    pub warnings: Seq<Seq<char>>,
    pub refreshed_source: Option<Seq<char>>,
}

/// The characters of an optional text.
pub open spec fn optional_text(text: Option<String>) -> Option<Seq<char>> {
    match text {
        Some(text) => Some(text@),
        None => None,
    }
}

impl View for SnapshotRecord {
    type V = SnapshotModel;

    open spec fn view(&self) -> SnapshotModel {
        SnapshotModel {
            fetched_at_unix: self.fetched_at_unix,
            sources: quote_models(self.sources@),
            average_price: self.average_price,
            spread: self.spread,
            warnings: text_models(self.warnings@),
            refreshed_source: optional_text(self.refreshed_source),
        }
    }
}

/// Everything that storage holds: the latest snapshot and every provider's health.
#[derive(Debug, PartialEq)]
pub struct StoredPriceState {
    pub snapshot: Option<SnapshotRecord>,
    pub provider_health: Vec<ProviderHealth>,
}

/// What a stored price state holds.
#[verifier::ext_equal]
pub struct PriceStateModel {
    pub snapshot: Option<SnapshotModel>,
    pub provider_health: Seq<HealthModel>,
}

/// What an optional snapshot record holds.
pub open spec fn optional_snapshot(snapshot: Option<SnapshotRecord>) -> Option<SnapshotModel> {
    match snapshot {
        Some(snapshot) => Some(snapshot@),
        None => None,
    }
}

impl View for StoredPriceState {
    type V = PriceStateModel;

    open spec fn view(&self) -> PriceStateModel {
        PriceStateModel {
            snapshot: optional_snapshot(self.snapshot),
            provider_health: health_models(self.provider_health@),
        }
    }
}

/// A viewer's announcement of being present or of leaving.
#[derive(Debug, PartialEq)]
pub struct PresencePayload {
    pub session_id: String,
    pub active: bool,
}

/// The reply to an announcement.
#[derive(Debug, PartialEq)]
pub struct PresenceResponse {
    pub active_viewers: usize,
    pub error: Option<String>,
}

/// Copies an optional text.
pub fn copy_optional_text(text: &Option<String>) -> (copy: Option<String>)
    ensures
        optional_text(copy) == optional_text(*text),
{
    match text {
        Some(text) => Some(text.clone()),
        None => None,
    }
}

/// What a stored state holds is what its snapshot and its health records hold, field by field.
pub proof fn law_states_hold_their_records(state: StoredPriceState, text: String)
    ensures
        state@.provider_health == health_models(state.provider_health@),
        state.snapshot is None ==> state@.snapshot is None,
        state.snapshot matches Some(snapshot) ==> {
            &&& state@.snapshot is Some
            &&& state@.snapshot->0 == snapshot@
            &&& snapshot@.fetched_at_unix == snapshot.fetched_at_unix
            &&& snapshot@.sources == quote_models(snapshot.sources@)
            &&& snapshot@.average_price == snapshot.average_price
            &&& snapshot@.spread == snapshot.spread
            &&& snapshot@.warnings == text_models(snapshot.warnings@)
            &&& snapshot@.refreshed_source == match snapshot.refreshed_source {
                Some(label) => Some(label@),
                None => None,
            }
        },
        optional_text(None) is None,
        optional_text(Some(text)) == Some(text@),
        optional_snapshot(state.snapshot) == state@.snapshot,
{
}

} // verus!
