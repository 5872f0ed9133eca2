//! The decisions behind the replies of the service.
//!
//! A price request goes through stages, each of which says what is to be done next: look at the
//! viewers, try to become the one that refreshes, look at what is stored, ask providers, save
//! what they answered. A stage can only be reached through the one before it.
use crate::clock::{reaches, Moment};
use crate::config::{REFRESH_INTERVAL_SECONDS, SOURCE_MAX_AGE_SECONDS};
use crate::errors::{failure_text, RefreshError};
use crate::freshness::{
    age_at, contributes, contributors, counted, counts_for, evaluate_quotes, evaluated_status,
    evaluates, in_configured_order, law_contributors_are_the_quotes_that_count,
    law_each_provider_contributes_at_most_once, law_ranges_span_the_contributors,
    law_status_tells_what_counts, law_usable_quotes_stay_visible, row_at, rows_at, succeeded,
    QuoteEvaluation,
};
use crate::models::source_contract::{
    health_models, source_models, text_models, AggregateCoverage, HealthModel, PriceResponse,
    PriceStatus, SourceModel,
};
use crate::models::{
    optional_snapshot, optional_text, PresencePayload, PresenceResponse, PriceStateModel,
    SnapshotModel, SnapshotRecord, StoredPriceState,
};
use crate::presence::{
    activates, active_at, admits, after_announcement, apply_presence_update, is_valid_session_id,
    law_only_young_snapshots_hold_back_refreshes, next_generation, refresh_skip_reason,
    skip_reason, snapshot_age_seconds, valid_session_id, Viewers,
};
use crate::refresh::{
    begun, completed, AttemptResult, RefreshCoordinator, RefreshPlan, LONGEST_BACKOFF_SECONDS,
};
use crate::snapshots::{
    attempt_results, failure_texts, failures_in, last_answer, last_row,
    law_new_quotes_replace_old_ones, law_total_failure_saves_health_only,
    lemma_failures_are_presentable, lemma_last_row, presentable_failures, quote_of, records,
    refresh_records, ProviderAttempt, RefreshRecords,
};
use crate::sources::{all_sources, source_name, UpstreamSource, SOURCE_COUNT};
use crate::storage::{
    law_merged_snapshots_are_read_back_unchanged, lays_out, restores, source_row_models,
    SnapshotRow, SourceRow,
};
use vstd::prelude::*;

verus! {

/// What became of the refresh within a price request.
#[derive(Debug, PartialEq)]
pub struct RefreshReport {
    /// Whether a new quote was saved.
    pub succeeded: bool,
    pub skipped_reason: Option<String>,
    pub errors: Vec<String>,
    /// Whether stored data could not be inspected or saved.
    pub persistence_failed: bool,
}

/// What a report holds.
#[verifier::ext_equal]
pub struct ReportModel {
    pub succeeded: bool,
    pub skipped_reason: Option<Seq<char>>,
    pub errors: Seq<Seq<char>>,
    pub persistence_failed: bool,
}

impl View for RefreshReport {
    type V = ReportModel;

    open spec fn view(&self) -> ReportModel {
        ReportModel {
            succeeded: self.succeeded,
            skipped_reason: optional_text(self.skipped_reason),
            errors: text_models(self.errors@),
            persistence_failed: self.persistence_failed,
        }
    }
}

/// The report of a refresh that was not due.
pub open spec fn skipped(reason: Seq<char>) -> ReportModel {
    ReportModel {
        succeeded: false,
        skipped_reason: Some(reason),
        errors: Seq::empty(),
        persistence_failed: false,
    }
}

/// The report of a refresh before which stored data could not be inspected.
pub open spec fn uninspected() -> ReportModel {
    ReportModel {
        succeeded: false,
        skipped_reason: None,
        errors: seq!["Failed to inspect stored price data before refresh"@],
        persistence_failed: true,
    }
}

fn report_skip(reason: String) -> (report: RefreshReport)
    ensures
        report@ == skipped(reason@),
{
    let report = RefreshReport {
        succeeded: false,
        skipped_reason: Some(reason),
        errors: Vec::new(),
        persistence_failed: false,
    };
    assert(report@ =~= skipped(reason@));
    report
}

/// What a price request does once the viewers are counted.
#[derive(Debug, PartialEq)]
pub enum Opening {
    /// Reply with what is stored.
    Reply(RefreshReport),
    /// Try to become the one that refreshes, without waiting.
    TryLock(LockWanted),
}

/// A price request that may refresh.
#[derive(Debug, PartialEq)]
pub struct LockWanted {
    opened: (),
}

/// What a price request does once it knows whether it is the one that refreshes.
#[derive(Debug, PartialEq)]
pub enum LockOutcome {
    /// Reply with what is stored.
    Reply(RefreshReport),
    /// Look at what is stored, and count the viewers again.
    Inspect(InspectionWanted),
}

/// A price request that holds the refresh lock.
#[derive(Debug, PartialEq)]
pub struct InspectionWanted {
    locked: (),
}

/// What a price request does once it has looked at what is stored.
#[derive(Debug, PartialEq)]
pub enum Inspection {
    /// Reply with what is stored.
    Reply(RefreshReport),
    /// Ask the planned providers.
    Dispatch(Dispatched),
}

/// A price request whose providers are being asked.
#[derive(Debug, PartialEq)]
pub struct Dispatched {
    plan: RefreshPlan,
    latest: Option<SnapshotRecord>,
}

/// A price request whose answers are to be saved.
#[derive(Debug, PartialEq)]
pub struct Saving {
    pub records: RefreshRecords,
}

/// Opens a price request. Without viewers nothing is asked of anyone.
pub fn open_price_request(active_viewers: usize) -> (opening: Opening)
    ensures
        match opening {
            Opening::Reply(report) => {
                &&& active_viewers == 0
                &&& report@ == skipped(skip_reason(0, None)->0)
            },
            Opening::TryLock(_) => active_viewers > 0,
        },
{
    match refresh_skip_reason(active_viewers, None) {
        Some(reason) => Opening::Reply(report_skip(reason)),
        None => Opening::TryLock(LockWanted { opened: () }),
    }
}

impl LockWanted {
    /// Goes on with or without the refresh lock: while another request refreshes, this one replies
    /// with what is stored.
    pub fn resolve(self, acquired: bool) -> (outcome: LockOutcome)
        ensures
            match outcome {
                LockOutcome::Reply(report) => {
                    &&& !acquired
                    &&& report@ == skipped("Refresh skipped: another refresh is in progress."@)
                },
                LockOutcome::Inspect(_) => acquired,
            },
    {
        if acquired {
            LockOutcome::Inspect(InspectionWanted { locked: self.opened })
        } else {
            LockOutcome::Reply(
                report_skip("Refresh skipped: another refresh is in progress.".to_owned()),
            )
        }
    }
}

/// The age of the latest snapshot, where there is one.
pub open spec fn latest_age(snapshot: Option<SnapshotModel>, now_unix: i64) -> Option<i64> {
    match snapshot {
        Some(snapshot) => age_at(Some(snapshot.fetched_at_unix), now_unix),
        None => None,
    }
}

/// What an inspection found, where it found anything.
pub open spec fn inspected_state(inspected: Result<StoredPriceState, String>) -> Option<
    PriceStateModel,
> {
    match inspected {
        Ok(state) => Some(state@),
        Err(_) => None,
    }
}

/// Why an inspected request does not refresh, if it does not.
pub open spec fn inspection_report(
    coordinator: RefreshCoordinator,
    state: Option<PriceStateModel>,
    active_viewers: nat,
    now_unix: i64,
    now: Moment,
    generation: u64,
) -> Option<ReportModel> {
    match state {
        None => Some(uninspected()),
        Some(state) => match skip_reason(active_viewers, latest_age(state.snapshot, now_unix)) {
            Some(reason) => Some(skipped(reason)),
            None => if coordinator.may_begin(now, generation) {
                None
            } else if coordinator.too_recent(now) {
                Some(
                    skipped(
                        "Refresh skipped: minimum interval since the last attempt has not elapsed."@,
                    ),
                )
            } else {
                Some(
                    skipped(
                        "Refresh skipped: all providers are waiting before another attempt."@,
                    ),
                )
            },
        },
    }
}

impl InspectionWanted {
    /// Decides whether to ask providers, given what is stored and the viewers at this time. The
    /// schedule changes only where providers are asked.
    pub fn resolve(
        self,
        coordinator: &mut RefreshCoordinator,
        inspected: Result<StoredPriceState, String>,
        active_viewers: usize,
        now_unix: i64,
        now: Moment,
        generation: u64,
    ) -> (inspection: Inspection)
        requires
            old(coordinator).wf(),
            reaches(now, REFRESH_INTERVAL_SECONDS as int),
        ensures
            final(coordinator).wf(),
            match inspection {
                Inspection::Reply(report) => {
                    &&& inspection_report(
                        *old(coordinator),
                        inspected_state(inspected),
                        active_viewers as nat,
                        now_unix,
                        now,
                        generation,
                    ) == Some(report@)
                    &&& *final(coordinator) == *old(coordinator)
                },
                Inspection::Dispatch(dispatched) => {
                    &&& inspection_report(
                        *old(coordinator),
                        inspected_state(inspected),
                        active_viewers as nat,
                        now_unix,
                        now,
                        generation,
                    ) is None
                    &&& begun(*old(coordinator), *final(coordinator), now, generation)
                    &&& dispatched.plan().sources@ == old(coordinator).planned(now, generation)
                    &&& dispatched.plan().full_refresh == old(coordinator).owes_full_refresh(
                        generation,
                    )
                    &&& dispatched.plan().generation == generation
                    &&& inspected_state(inspected) matches Some(state)
                    &&& dispatched.latest() == state.snapshot
                },
            },
    {
        let state = match inspected {
            Ok(state) => state,
            Err(_) => {
                let mut errors: Vec<String> = Vec::new();
                errors.push("Failed to inspect stored price data before refresh".to_owned());
                let report = RefreshReport {
                    succeeded: false,
                    skipped_reason: None,
                    errors,
                    persistence_failed: true,
                };
                assert(report@ =~= uninspected());
                return Inspection::Reply(report);
            },
        };
        let age = match &state.snapshot {
            Some(snapshot) => snapshot_age_seconds(snapshot, now_unix),
            None => None,
        };
        if let Some(reason) = refresh_skip_reason(active_viewers, age) {
            return Inspection::Reply(report_skip(reason));
        }
        match coordinator.begin(now, generation) {
            Ok(plan) => Inspection::Dispatch(Dispatched { plan, latest: state.snapshot }),
            Err(reason) => Inspection::Reply(report_skip(reason.to_owned())),
        }
    }
}

impl Dispatched {
    /// The plan that the request follows.
    pub closed spec fn plan(self) -> RefreshPlan {
        self.plan
    }

    /// The snapshot to merge new quotes into.
    pub closed spec fn latest(self) -> Option<SnapshotModel> {
        optional_snapshot(self.latest)
    }

    /// The providers to ask.
    pub fn planned_sources(&self) -> (sources: &Vec<UpstreamSource>)
        ensures
            sources@ == self.plan().sources@,
    {
        &self.plan.sources
    }

    /// Takes in the answers at the time the batch is complete: the schedule learns of them
    /// whether or not they can be saved.
    pub fn complete(
        self,
        coordinator: &mut RefreshCoordinator,
        attempts: &Vec<ProviderAttempt>,
        now: Moment,
        now_unix: i64,
    ) -> (saving: Saving)
        requires
            old(coordinator).wf(),
            reaches(now, LONGEST_BACKOFF_SECONDS as int),
            presentable_failures(attempts@),
        ensures
            final(coordinator).wf(),
            completed(
                *old(coordinator),
                *final(coordinator),
                self.plan(),
                answers_of(attempts@),
                now,
                now_unix,
            ),
            records(saving.records, self.latest(), attempts@, now_unix),
            saving.presentable(),
    {
        let results = attempt_results(attempts);
        coordinator.complete(&self.plan, &results, now, now_unix);
        proof {
            let answers = answers_of(attempts@);
            assert forall|i: int| 0 <= i < SOURCE_COUNT implies #[trigger] answers[i]
                == results@[i] by {
                assert(all_sources()[i].position() == i);
                assert(results@[all_sources()[i].position() as int] == last_answer(
                    attempts@,
                    all_sources()[i],
                ));
            }
            assert(answers =~= results@);
        }
        let saved = refresh_records(self.latest.as_ref(), attempts, now_unix);
        proof {
            lemma_failures_are_presentable(attempts@);
        }
        Saving { records: saved }
    }
}

/// How each provider answered, in configured order.
pub open spec fn answers_of(attempts: Seq<ProviderAttempt>) -> Seq<Option<AttemptResult>> {
    Seq::new(SOURCE_COUNT as nat, |i: int| last_answer(attempts, all_sources()[i]))
}

/// The report of a refresh whose answers were saved, or could not be.
pub open spec fn saved_report(saved: RefreshRecords, stored: bool) -> ReportModel {
    ReportModel {
        succeeded: stored && saved.snapshot is Some,
        skipped_reason: None,
        errors: if stored && saved.snapshot is Some {
            Seq::empty()
        } else if stored {
            failure_texts(saved.failures@)
        } else {
            failure_texts(saved.failures@).push("Failed to store refreshed price data"@)
        },
        persistence_failed: !stored,
    }
}

impl Saving {
    /// Whether every failure can be shown.
    pub open spec fn presentable(self) -> bool {
        forall|i: int|
            0 <= i < self.records.failures@.len() ==> (
            #[trigger] self.records.failures@[i]).presentable()
    }

    /// Reports on the refresh, given whether its answers were saved. What storage says of a
    /// failure stays out of the report.
    pub fn resolve(self, stored: Result<(), String>) -> (report: RefreshReport)
        requires
            self.presentable(),
        ensures
            report@ == saved_report(self.records, stored is Ok),
    {
        let succeeded = stored.is_ok() && self.records.snapshot.is_some();
        let mut errors: Vec<String> = Vec::new();
        if !succeeded {
            let failures = &self.records.failures;
            let mut i: usize = 0;
            while i < failures.len()
                invariant
                    i <= failures@.len(),
                    failures@ == self.records.failures@,
                    forall|j: int|
                        0 <= j < failures@.len() ==> (#[trigger] failures@[j]).presentable(),
                    errors@.len() == i,
                    forall|j: int|
                        0 <= j < i ==> (#[trigger] errors@[j])@ == failure_texts(failures@)[j],
                decreases failures@.len() - i,
            {
                errors.push(failures[i].message());
                i += 1;
            }
        }
        let ghost texts = text_models(errors@);
        let persistence_failed = stored.is_err();
        if let Err(details) = stored {
            errors.push(RefreshError::Storage(details).message());
            assert(text_models(errors@) =~= texts.push("Failed to store refreshed price data"@));
        }
        assert(!succeeded ==> texts =~= failure_texts(self.records.failures@));
        let report = RefreshReport {
            succeeded,
            skipped_reason: None,
            errors,
            persistence_failed,
        };
        assert(report@ =~= saved_report(self.records, stored is Ok));
        report
    }
}

/// The reply to a price request.
#[derive(Debug, PartialEq)]
pub struct PriceReply {
    pub status: u16,
    pub body: PriceResponse,
}

/// A warning about a refresh that failed while stored quotes are served.
pub open spec fn refresh_warning(error: Seq<char>) -> Seq<char> {
    "Refresh failed; serving latest SQLite snapshot: "@ + error
}

/// The warnings of a reply: those about the refresh, then those of the snapshot.
pub open spec fn served_warnings(errors: Seq<Seq<char>>, warnings: Seq<Seq<char>>) -> Seq<
    Seq<char>,
> {
    Seq::new(errors.len(), |i: int| refresh_warning(errors[i])) + warnings
}

/// The status of a reply: what could not be inspected or saved degrades a live one.
pub open spec fn served_status(status: PriceStatus, persistence_failed: bool) -> PriceStatus {
    if status == PriceStatus::Live && persistence_failed {
        PriceStatus::Degraded
    } else {
        status
    }
}

/// Whether a reply shows no quotes.
pub open spec fn shows_nothing(body: PriceResponse) -> bool {
    &&& body.sources@.len() == 0
    &&& body.contributing_prices@.len() == 0
    &&& body.price_range is None
    &&& body.status == PriceStatus::Unavailable
    &&& body.coverage.configured_source_count == SOURCE_COUNT
    &&& body.coverage.fresh_source_count == 0
    &&& body.coverage.contributing_sources@.len() == 0
    &&& body.fetched_at_unix == 0
    &&& body.fetched_age_seconds is None
    &&& !body.refresh_succeeded
}

/// Whether a reply shows the quotes of a snapshot.
pub open spec fn shows(
    body: PriceResponse,
    snapshot: SnapshotModel,
    health: Seq<HealthModel>,
    report: ReportModel,
    now_unix: i64,
) -> bool {
    let evaluated = evaluated_status(snapshot.sources, health, now_unix);
    &&& evaluates(
        (QuoteEvaluation {
            sources: body.sources,
            contributing_prices: body.contributing_prices,
            price_range: body.price_range,
            status: evaluated,
            coverage: body.coverage,
        }),
        snapshot.sources,
        health,
        now_unix,
    )
    &&& body.status == served_status(evaluated, report.persistence_failed)
    &&& body.fetched_at_unix == snapshot.fetched_at_unix
    &&& body.fetched_age_seconds == age_at(Some(snapshot.fetched_at_unix), now_unix)
    &&& text_models(body.warnings@) == served_warnings(report.errors, snapshot.warnings)
    &&& body.refresh_succeeded == report.succeeded
}

/// Whether a reply is the one to a request with a report, given what is stored at its end.
pub open spec fn replies(
    reply: PriceReply,
    report: ReportModel,
    loaded: Option<PriceStateModel>,
    now_unix: i64,
    active_viewers: usize,
) -> bool {
    let body = reply.body;
    &&& body.symbol@ == "BTC"@
    &&& body.currency@ == "USD"@
    &&& body.source_max_age_seconds == SOURCE_MAX_AGE_SECONDS
    &&& body.evaluated_at_unix == now_unix
    &&& body.stale == (body.status != PriceStatus::Live)
    &&& body.active_viewers == active_viewers
    &&& optional_text(body.refresh_skipped_reason) == report.skipped_reason
    &&& health_models(body.provider_health@) == match loaded {
        Some(state) => state.provider_health,
        None => Seq::empty(),
    }
    &&& match loaded {
        Some(state) => match state.snapshot {
            Some(snapshot) => {
                &&& shows(body, snapshot, state.provider_health, report, now_unix)
                &&& reply.status == if body.sources@.len() > 0 {
                    200u16
                } else {
                    503u16
                }
            },
            None => {
                &&& shows_nothing(body)
                &&& text_models(body.warnings@)
                    == seq!["No stored BTC price snapshot is available yet."@] + report.errors
                &&& reply.status == 503
            },
        },
        None => {
            &&& shows_nothing(body)
            &&& text_models(body.warnings@) == seq!["Failed to load stored price data."@]
            &&& reply.status == 500
        },
    }
}

fn empty_coverage() -> (coverage: AggregateCoverage)
    ensures
        coverage.configured_source_count == SOURCE_COUNT,
        coverage.fresh_source_count == 0,
        coverage.contributing_sources@.len() == 0,
{
    AggregateCoverage {
        configured_source_count: SOURCE_COUNT,
        fresh_source_count: 0,
        contributing_sources: Vec::new(),
    }
}

/// Copies texts behind others.
fn append_texts(texts: &mut Vec<String>, more: &Vec<String>)
    ensures
        text_models(final(texts)@) == text_models(old(texts)@) + text_models(more@),
{
    let ghost before = texts@;
    let mut i: usize = 0;
    while i < more.len()
        invariant
            i <= more@.len(),
            before == old(texts)@,
            texts@.len() == before.len() + i,
            forall|j: int| 0 <= j < before.len() ==> #[trigger] texts@[j] == before[j],
            forall|j: int|
                before.len() <= j < before.len() + i ==> (#[trigger] texts@[j])@ == more@[j
                    - before.len()]@,
        decreases more@.len() - i,
    {
        texts.push(more[i].clone());
        i += 1;
    }
    assert(text_models(texts@) =~= text_models(before) + text_models(more@));
}

/// Answers a price request: with the stored quotes, evaluated at this time, or with why there are
/// none.
pub fn price_reply(
    report: RefreshReport,
    loaded: Result<StoredPriceState, String>,
    now_unix: i64,
    active_viewers: usize,
) -> (reply: PriceReply)
    ensures
        replies(reply, report@, inspected_state(loaded), now_unix, active_viewers),
{
    let mut warnings: Vec<String> = Vec::new();
    let state = match loaded {
        Ok(state) => state,
        Err(_) => {
            warnings.push("Failed to load stored price data.".to_owned());
            let body = PriceResponse {
                symbol: "BTC",
                currency: "USD",
                sources: Vec::new(),
                provider_health: Vec::new(),
                contributing_prices: Vec::new(),
                price_range: None,
                status: PriceStatus::Unavailable,
                coverage: empty_coverage(),
                source_max_age_seconds: SOURCE_MAX_AGE_SECONDS,
                evaluated_at_unix: now_unix,
                fetched_at_unix: 0,
                fetched_age_seconds: None,
                warnings,
                refresh_succeeded: false,
                stale: true,
                active_viewers,
                refresh_skipped_reason: report.skipped_reason,
            };
            assert(text_models(body.warnings@) =~= seq!["Failed to load stored price data."@]);
            assert(health_models(body.provider_health@) =~= Seq::empty());
            return PriceReply { status: 500, body };
        },
    };
    let snapshot = match state.snapshot {
        Some(snapshot) => snapshot,
        None => {
            warnings.push("No stored BTC price snapshot is available yet.".to_owned());
            assert(text_models(warnings@)
                =~= seq!["No stored BTC price snapshot is available yet."@]);
            append_texts(&mut warnings, &report.errors);
            let body = PriceResponse {
                symbol: "BTC",
                currency: "USD",
                sources: Vec::new(),
                provider_health: state.provider_health,
                contributing_prices: Vec::new(),
                price_range: None,
                status: PriceStatus::Unavailable,
                coverage: empty_coverage(),
                source_max_age_seconds: SOURCE_MAX_AGE_SECONDS,
                evaluated_at_unix: now_unix,
                fetched_at_unix: 0,
                fetched_age_seconds: None,
                warnings,
                refresh_succeeded: false,
                stale: true,
                active_viewers,
                refresh_skipped_reason: report.skipped_reason,
            };
            return PriceReply { status: 503, body };
        },
    };
    let fetched_age_seconds = snapshot_age_seconds(&snapshot, now_unix);
    let ghost stored = snapshot@;
    let ghost health = health_models(state.provider_health@);
    let ghost errors = text_models(report.errors@);
    let mut i: usize = 0;
    while i < report.errors.len()
        invariant
            i <= report.errors@.len(),
            errors == text_models(report.errors@),
            warnings@.len() == i,
            forall|j: int|
                0 <= j < i ==> (#[trigger] warnings@[j])@ == refresh_warning(errors[j]),
        decreases report.errors@.len() - i,
    {
        let mut warning = "Refresh failed; serving latest SQLite snapshot: ".to_owned();
        warning.append(report.errors[i].as_str());
        warnings.push(warning);
        i += 1;
    }
    assert(text_models(warnings@) =~= Seq::new(
        errors.len(),
        |j: int| refresh_warning(errors[j]),
    ));
    append_texts(&mut warnings, &snapshot.warnings);
    let evaluation = evaluate_quotes(
        snapshot.sources,
        state.provider_health.as_slice(),
        now_unix,
    );
    assert(evaluates(evaluation, stored.sources, health, now_unix));
    let live = match evaluation.status {
        PriceStatus::Live => true,
        _ => false,
    };
    let price_status = if live && report.persistence_failed {
        PriceStatus::Degraded
    } else {
        evaluation.status
    };
    let status: u16 = if evaluation.sources.len() > 0 {
        200
    } else {
        503
    };
    let body = PriceResponse {
        symbol: "BTC",
        currency: "USD",
        sources: evaluation.sources,
        provider_health: state.provider_health,
        contributing_prices: evaluation.contributing_prices,
        price_range: evaluation.price_range,
        status: price_status,
        coverage: evaluation.coverage,
        source_max_age_seconds: SOURCE_MAX_AGE_SECONDS,
        evaluated_at_unix: now_unix,
        fetched_at_unix: snapshot.fetched_at_unix,
        fetched_age_seconds,
        warnings,
        refresh_succeeded: report.succeeded,
        stale: !live || report.persistence_failed,
        active_viewers,
        refresh_skipped_reason: report.skipped_reason,
    };
    assert(shows(body, stored, health, report@, now_unix));
    PriceReply { status, body }
}

/// The time after which a refused viewer may try again, in seconds.
pub const VIEWER_RETRY_SECONDS: u64 = 15;

/// The reply to a viewer's announcement.
#[derive(Debug, PartialEq)]
pub struct PresenceReply {
    pub status: u16,
    pub body: PresenceResponse,
    pub retry_after_seconds: Option<u64>,
}

/// Takes in a viewer's announcement and answers it. One with an invalid identifier changes
/// nothing; one that finds no room is told when to try again.
pub fn update_presence(
    viewers: &mut Viewers,
    generation: &mut u64,
    payload: PresencePayload,
    now: Moment,
    max_viewers: usize,
) -> (reply: PresenceReply)
    requires
        old(viewers).wf(),
    ensures
        final(viewers).wf(),
        !valid_session_id(payload.session_id@) ==> {
            &&& *final(viewers) == *old(viewers)
            &&& *final(generation) == *old(generation)
            &&& reply.status == 400
            &&& reply.body.active_viewers == 0
            &&& reply.body.error is None
            &&& reply.retry_after_seconds is None
        },
        valid_session_id(payload.session_id@) ==> {
            &&& final(viewers)@ == after_announcement(
                old(viewers)@,
                payload.session_id@,
                payload.active,
                now,
                max_viewers as nat,
            )
            &&& *final(generation) == if activates(
                old(viewers)@,
                payload.session_id@,
                payload.active,
                now,
                max_viewers as nat,
            ) {
                next_generation(*old(generation))
            } else {
                *old(generation)
            }
            &&& reply.body.active_viewers == final(viewers)@.dom().len()
            &&& if admits(
                active_at(old(viewers)@, now),
                payload.session_id@,
                payload.active,
                max_viewers as nat,
            ) {
                &&& reply.status == 200
                &&& reply.body.error is None
                &&& reply.retry_after_seconds is None
            } else {
                &&& reply.status == 429
                &&& optional_text(reply.body.error) == Some(
                    "Viewer capacity reached; retry later."@,
                )
                &&& reply.retry_after_seconds == Some(VIEWER_RETRY_SECONDS)
            }
        },
{
    if !is_valid_session_id(payload.session_id.as_str()) {
        return PresenceReply {
            status: 400,
            body: PresenceResponse { active_viewers: 0, error: None },
            retry_after_seconds: None,
        };
    }
    let update = apply_presence_update(viewers, generation, payload, now, max_viewers);
    if update.admitted {
        PresenceReply {
            status: 200,
            body: PresenceResponse { active_viewers: update.active_viewers, error: None },
            retry_after_seconds: None,
        }
    } else {
        PresenceReply {
            status: 429,
            body: PresenceResponse {
                active_viewers: update.active_viewers,
                error: Some("Viewer capacity reached; retry later.".to_owned()),
            },
            retry_after_seconds: Some(VIEWER_RETRY_SECONDS),
        }
    }
}

/// The reply to a health check.
#[derive(Clone, Copy, Debug, PartialEq)]
pub struct HealthReply {
    pub status: u16,
    pub text: &'static str,
}

/// Answers a health check: only whether stored data can be read counts.
pub fn health_reply(readable: bool) -> (reply: HealthReply)
    ensures
        reply.status == if readable {
            200u16
        } else {
            503u16
        },
        reply.text@ == if readable {
            "ok"@
        } else {
            "unavailable"@
        },
{
    if readable {
        HealthReply { status: 200, text: "ok" }
    } else {
        HealthReply { status: 503, text: "unavailable" }
    }
}

/// Providers are asked only while someone watches: without viewers at the time of the inspection
/// a request replies with what is stored.
pub proof fn law_nobody_watching_asks_nobody(
    coordinator: RefreshCoordinator,
    state: PriceStateModel,
    now_unix: i64,
    now: Moment,
    generation: u64,
)
    ensures
        inspection_report(coordinator, Some(state), 0, now_unix, now, generation) == Some(
            skipped(skip_reason(0, None)->0),
        ),
{
}

/// A snapshot younger than the refresh interval holds back a refresh; one ahead of the clock does
/// not.
pub proof fn law_recent_snapshots_are_not_refreshed(
    coordinator: RefreshCoordinator,
    state: PriceStateModel,
    snapshot: SnapshotModel,
    active_viewers: nat,
    now_unix: i64,
    now: Moment,
    generation: u64,
)
    requires
        state.snapshot == Some(snapshot),
        active_viewers > 0,
    ensures
        0 <= now_unix - snapshot.fetched_at_unix < REFRESH_INTERVAL_SECONDS ==> inspection_report(
            coordinator,
            Some(state),
            active_viewers,
            now_unix,
            now,
            generation,
        ) is Some,
        snapshot.fetched_at_unix > now_unix && coordinator.may_begin(now, generation)
            ==> inspection_report(
            coordinator,
            Some(state),
            active_viewers,
            now_unix,
            now,
            generation,
        ) is None,
{
}

/// What storage says of a failure has no effect on a reply.
pub proof fn law_replies_hide_storage_details(one: String, other: String)
    ensures
        inspected_state(Err(one)) == inspected_state(Err(other)),
{
}

/// A reply is a success where a stored quote has a usable price; else it says that the service is
/// unavailable, or that stored data could not be read.
pub proof fn law_reply_status_tells_whether_quotes_are_stored(
    reply: PriceReply,
    report: ReportModel,
    loaded: Option<PriceStateModel>,
    now_unix: i64,
    active_viewers: usize,
)
    requires
        replies(reply, report, loaded, now_unix, active_viewers),
    ensures
        reply.status == 500 <==> loaded is None,
        reply.status == 200 <==> (loaded matches Some(state) && state.snapshot matches Some(
            snapshot,
        ) && exists|i: int|
            0 <= i < snapshot.sources.len() && (
            #[trigger] snapshot.sources[i]).price_usd.usable()),
        reply.status == 200 || reply.status == 500 || reply.status == 503,
        reply.status != 200 ==> reply.body.status == PriceStatus::Unavailable,
{
    if let Some(state) = loaded {
        if let Some(snapshot) = state.snapshot {
            let rows = rows_at(snapshot.sources, now_unix);
            assert(source_models(reply.body.sources@) == rows);
            assert(reply.body.sources@.len() == rows.len());
            if exists|i: int|
                0 <= i < snapshot.sources.len() && (
                #[trigger] snapshot.sources[i]).price_usd.usable() {
                let i = choose|i: int|
                    0 <= i < snapshot.sources.len() && (
                    #[trigger] snapshot.sources[i]).price_usd.usable();
                law_usable_quotes_stay_visible(
                    snapshot.sources,
                    now_unix,
                    row_at(snapshot.sources[i], now_unix),
                );
                assert(rows.len() > 0);
            } else if rows.len() > 0 {
                law_usable_quotes_stay_visible(snapshot.sources, now_unix, rows[0]);
                assert(rows.contains(rows[0]));
            } else {
                law_each_provider_contributes_at_most_once(rows);
                lemma_no_rows_no_contributors(rows, SOURCE_COUNT as nat);
            }
        }
    }
}

proof fn lemma_no_rows_no_contributors(rows: Seq<SourceModel>, providers: nat)
    requires
        rows.len() == 0,
    ensures
        contributors(rows, providers).len() == 0,
    decreases providers,
{
    if providers > 0 {
        lemma_no_rows_no_contributors(rows, (providers - 1) as nat);
    }
}

/// A reply is marked as stale unless it is live, and it is live only where nothing stored failed
/// to be inspected or saved.
pub proof fn law_stale_unless_live(
    reply: PriceReply,
    report: ReportModel,
    loaded: Option<PriceStateModel>,
    now_unix: i64,
    active_viewers: usize,
)
    requires
        replies(reply, report, loaded, now_unix, active_viewers),
    ensures
        reply.body.stale <==> reply.body.status != PriceStatus::Live,
        report.persistence_failed ==> reply.body.stale,
{
}

/// A refresh whose providers all fail saves no quotes and reports what each provider failed of.
pub proof fn law_total_failure_is_reported(
    saved: RefreshRecords,
    latest: Option<SnapshotModel>,
    attempts: Seq<ProviderAttempt>,
    now_unix: i64,
)
    requires
        records(saved, latest, attempts, now_unix),
        forall|i: int| 0 <= i < attempts.len() ==> (#[trigger] attempts[i]).result is Err,
    ensures
        saved.snapshot is None,
        !saved_report(saved, true).succeeded,
        saved_report(saved, true).errors == failure_texts(failures_in(attempts)),
        saved_report(saved, true).errors.len() == attempts.len(),
{
    law_total_failure_saves_health_only(saved, latest, attempts, now_unix);
}

/// A quote that was fetched and saved is shown by the replies that follow, under the time at which
/// it was received.
pub proof fn law_fetched_quotes_are_served(
    saved: RefreshRecords,
    latest: Option<SnapshotModel>,
    attempts: Seq<ProviderAttempt>,
    saved_at: i64,
    i: int,
    snapshot: SnapshotModel,
    rows: (SnapshotRow, Vec<SourceRow>),
    state: PriceStateModel,
    read: SnapshotModel,
    reply: PriceReply,
    report: ReportModel,
    now_unix: i64,
    active_viewers: usize,
)
    requires
        records(saved, latest, attempts, saved_at),
        0 <= i < attempts.len(),
        attempts[i].result is Ok,
        attempts[i].result->Ok_0.usable(),
        forall|j: int| i < j < attempts.len() ==> (#[trigger] attempts[j]).source
            != attempts[i].source,
        snapshot.sources == saved.snapshot->0@.sources,
        lays_out(rows, snapshot),
        restores(read, rows.0, source_row_models(rows.1@)),
        state.snapshot == Some(read),
        replies(reply, report, Some(state), now_unix, active_viewers),
    ensures
        reply.status == 200,
        source_models(reply.body.sources@).contains(row_at(quote_of(attempts[i]), now_unix)),
{
    law_new_quotes_replace_old_ones(saved, latest, attempts, saved_at, i);
    let name = source_name(attempts[i].source);
    let quote = quote_of(attempts[i]);
    assert(last_row(snapshot.sources, name) == Some(quote));
    law_merged_snapshots_are_read_back_unchanged(snapshot, rows, read);
    lemma_last_row(snapshot.sources, name);
    let j = choose|j: int|
        0 <= j < snapshot.sources.len() && #[trigger] snapshot.sources[j] == quote;
    assert(snapshot.sources[j].price_usd.usable());
    law_usable_quotes_stay_visible(snapshot.sources, now_unix, row_at(quote, now_unix));
    law_reply_status_tells_whether_quotes_are_stored(
        reply,
        report,
        Some(state),
        now_unix,
        active_viewers,
    );
}

/// Providers are asked exactly where what is stored could be read, somebody watches, the latest
/// snapshot is not under ten seconds old, and the schedule lets a refresh begin. A snapshot ahead
/// of the clock, and none at all, hold back nothing.
pub proof fn law_due_refreshes_go_ahead(
    coordinator: RefreshCoordinator,
    state: Option<PriceStateModel>,
    active_viewers: nat,
    now_unix: i64,
    now: Moment,
    generation: u64,
)
    ensures
        inspection_report(coordinator, state, active_viewers, now_unix, now, generation) is None
            <==> {
            &&& state is Some
            &&& active_viewers > 0
            &&& state->0.snapshot is None || !(0 <= now_unix
                - state->0.snapshot->0.fetched_at_unix < 10)
            &&& coordinator.may_begin(now, generation)
        },
{
    if let Some(state) = state {
        law_only_young_snapshots_hold_back_refreshes(
            active_viewers,
            latest_age(state.snapshot, now_unix),
        );
    }
}

/// A refresh that is held back has not succeeded. Where what is stored could not be read, that is
/// an error; else it is none, and the reason is told: nobody watches, or the snapshot is young, or
/// the last attempt is recent, or all providers are waiting.
pub proof fn law_held_back_refreshes_say_why(
    coordinator: RefreshCoordinator,
    state: Option<PriceStateModel>,
    active_viewers: nat,
    now_unix: i64,
    now: Moment,
    generation: u64,
)
    ensures
        inspection_report(
            coordinator,
            state,
            active_viewers,
            now_unix,
            now,
            generation,
        ) matches Some(report) ==> {
            &&& !report.succeeded
            &&& state is None ==> {
                &&& report.errors == seq!["Failed to inspect stored price data before refresh"@]
                &&& report.persistence_failed
                &&& report.skipped_reason is None
            }
            &&& state is Some ==> {
                let age = latest_age(state->0.snapshot, now_unix);
                let young = age is Some && age->0 < 10;
                &&& report.errors.len() == 0
                &&& !report.persistence_failed
                &&& active_viewers == 0 || young ==> report.skipped_reason == skip_reason(
                    active_viewers,
                    age,
                )
                &&& active_viewers > 0 && !young && coordinator.too_recent(now)
                    ==> report.skipped_reason == Some(
                    "Refresh skipped: minimum interval since the last attempt has not elapsed."@,
                )
                &&& active_viewers > 0 && !young && !coordinator.too_recent(now)
                    ==> report.skipped_reason == Some(
                    "Refresh skipped: all providers are waiting before another attempt."@,
                )
            }
        },
{
    if let Some(state) = state {
        law_only_young_snapshots_hold_back_refreshes(
            active_viewers,
            latest_age(state.snapshot, now_unix),
        );
    }
}

/// The age of a snapshot is what has passed since it was saved, where that is a number and not
/// negative.
pub proof fn law_snapshots_age_with_the_clock(snapshot: Option<SnapshotModel>, now_unix: i64)
    ensures
        snapshot is None ==> latest_age(snapshot, now_unix) is None,
        snapshot matches Some(snapshot) ==> {
            let passed = now_unix - snapshot.fetched_at_unix;
            &&& latest_age(Some(snapshot), now_unix) is Some <==> 0 <= passed <= i64::MAX
            &&& latest_age(Some(snapshot), now_unix) matches Some(age) ==> age == passed
        },
{
}

/// A refresh has succeeded where a new quote was saved, and then reports no errors. Else it reports
/// each provider's failure in order and, behind them, that saving failed where it did.
pub proof fn law_refreshes_succeed_with_a_saved_quote(saved: RefreshRecords, stored: bool)
    ensures
        ({
            let report = saved_report(saved, stored);
            let failures = saved.failures@.len();
            &&& report.succeeded <==> stored && saved.snapshot is Some
            &&& report.persistence_failed <==> !stored
            &&& report.skipped_reason is None
            &&& report.succeeded ==> report.errors.len() == 0
            &&& !report.succeeded ==> forall|i: int|
                0 <= i < failures ==> #[trigger] report.errors[i] == failure_text(
                    saved.failures@[i],
                )
            &&& !report.succeeded && stored ==> report.errors.len() == failures
            &&& !stored ==> {
                &&& report.errors.len() == failures + 1
                &&& report.errors[failures as int] == "Failed to store refreshed price data"@
            }
        }),
{
}

/// What every reply says, whatever is stored.
pub proof fn law_replies_say_what_they_are_about(
    reply: PriceReply,
    report: ReportModel,
    loaded: Option<PriceStateModel>,
    now_unix: i64,
    active_viewers: usize,
)
    requires
        replies(reply, report, loaded, now_unix, active_viewers),
    ensures
        reply.body.symbol@ == "BTC"@,
        reply.body.currency@ == "USD"@,
        reply.body.source_max_age_seconds == 90,
        reply.body.evaluated_at_unix == now_unix,
        reply.body.active_viewers == active_viewers,
        optional_text(reply.body.refresh_skipped_reason) == report.skipped_reason,
        reply.body.stale <==> reply.body.status != PriceStatus::Live,
        loaded is None ==> reply.body.provider_health@.len() == 0,
        loaded matches Some(state) ==> health_models(reply.body.provider_health@)
            == state.provider_health,
{
    assert(health_models(reply.body.provider_health@).len() == reply.body.provider_health@.len());
}

/// A reply without a snapshot shows no quotes and no aggregates. Where nothing could be read it is
/// an error and says so; else it says that there is no snapshot, and tells what failed.
pub proof fn law_replies_without_a_snapshot_are_empty(
    reply: PriceReply,
    report: ReportModel,
    loaded: Option<PriceStateModel>,
    now_unix: i64,
    active_viewers: usize,
)
    requires
        replies(reply, report, loaded, now_unix, active_viewers),
        loaded matches Some(state) ==> state.snapshot is None,
    ensures
        reply.status == if loaded is None {
            500u16
        } else {
            503u16
        },
        reply.body.sources@.len() == 0,
        reply.body.contributing_prices@.len() == 0,
        reply.body.price_range is None,
        reply.body.status == PriceStatus::Unavailable,
        reply.body.coverage.configured_source_count == 4,
        reply.body.coverage.fresh_source_count == 0,
        reply.body.coverage.contributing_sources@.len() == 0,
        reply.body.fetched_at_unix == 0,
        reply.body.fetched_age_seconds is None,
        !reply.body.refresh_succeeded,
        loaded is None ==> text_models(reply.body.warnings@) == seq![
            "Failed to load stored price data."@,
        ],
        loaded is Some ==> {
            let warnings = text_models(reply.body.warnings@);
            &&& warnings.len() == report.errors.len() + 1
            &&& warnings[0] == "No stored BTC price snapshot is available yet."@
            &&& forall|i: int|
                0 <= i < report.errors.len() ==> warnings[i + 1] == #[trigger] report.errors[i]
        },
{
    if loaded is Some {
        let first = seq!["No stored BTC price snapshot is available yet."@];
        let warnings = text_models(reply.body.warnings@);
        assert(warnings == first + report.errors);
        assert forall|i: int| 0 <= i < report.errors.len() implies warnings[i + 1]
            == #[trigger] report.errors[i] by {
            assert((first + report.errors)[i + 1] == report.errors[i]);
        }
    }
}

/// A reply with a snapshot shows its quotes: one row for each with a usable price, the aggregates
/// of those that count, when the snapshot was saved and how long ago, whether this request saved a
/// new quote, and the warnings: first what failed in this request, then those of the snapshot.
pub proof fn law_replies_show_the_snapshot(
    reply: PriceReply,
    report: ReportModel,
    state: PriceStateModel,
    snapshot: SnapshotModel,
    now_unix: i64,
    active_viewers: usize,
)
    requires
        replies(reply, report, Some(state), now_unix, active_viewers),
        state.snapshot == Some(snapshot),
    ensures
        source_models(reply.body.sources@) == rows_at(snapshot.sources, now_unix),
        reply.body.fetched_at_unix == snapshot.fetched_at_unix,
        reply.body.fetched_age_seconds == latest_age(Some(snapshot), now_unix),
        reply.body.refresh_succeeded == report.succeeded,
        reply.body.coverage.configured_source_count == 4,
        reply.body.coverage.fresh_source_count == reply.body.contributing_prices@.len(),
        reply.body.coverage.contributing_sources@.len() == reply.body.contributing_prices@.len(),
        forall|k: int|
            0 <= k < reply.body.contributing_prices@.len() ==> contributes(
                snapshot.sources,
                now_unix,
                #[trigger] reply.body.contributing_prices@[k],
                reply.body.coverage.contributing_sources@[k]@,
            ),
        forall|source: UpstreamSource, i: int|
            0 <= i < snapshot.sources.len() && #[trigger] counts_for(
                snapshot.sources[i],
                source,
                now_unix,
            ) ==> exists|k: int|
                0 <= k < reply.body.coverage.contributing_sources@.len() && (
                #[trigger] reply.body.coverage.contributing_sources@[k])@ == source_name(source),
        forall|j: int, k: int|
            0 <= j < k < reply.body.coverage.contributing_sources@.len() ==> in_configured_order(
                (#[trigger] reply.body.coverage.contributing_sources@[j])@,
                (#[trigger] reply.body.coverage.contributing_sources@[k])@,
            ),
        reply.body.price_range is None <==> reply.body.contributing_prices@.len() == 0,
        reply.body.price_range matches Some(range) ==> {
            &&& reply.body.contributing_prices@.contains(range.0)
            &&& reply.body.contributing_prices@.contains(range.1)
            &&& forall|k: int|
                0 <= k < reply.body.contributing_prices@.len() ==> range.0.bits <= (
                #[trigger] reply.body.contributing_prices@[k]).bits <= range.1.bits
        },
        ({
            let warnings = text_models(reply.body.warnings@);
            let errors = report.errors.len() as int;
            &&& warnings.len() == errors + snapshot.warnings.len()
            &&& forall|i: int|
                0 <= i < errors ==> #[trigger] warnings[i]
                    == "Refresh failed; serving latest SQLite snapshot: "@ + report.errors[i]
            &&& forall|i: int|
                0 <= i < snapshot.warnings.len() ==> warnings[errors + i]
                    == #[trigger] snapshot.warnings[i]
        }),
{
    let evaluation = QuoteEvaluation {
        sources: reply.body.sources,
        contributing_prices: reply.body.contributing_prices,
        price_range: reply.body.price_range,
        status: evaluated_status(snapshot.sources, state.provider_health, now_unix),
        coverage: reply.body.coverage,
    };
    assert(shows(reply.body, snapshot, state.provider_health, report, now_unix));
    law_contributors_are_the_quotes_that_count(
        evaluation,
        snapshot.sources,
        state.provider_health,
        now_unix,
    );
    law_ranges_span_the_contributors(
        evaluation,
        snapshot.sources,
        state.provider_health,
        now_unix,
    );
    let warnings = text_models(reply.body.warnings@);
    let errors = report.errors.len() as int;
    assert(warnings == served_warnings(report.errors, snapshot.warnings));
    assert forall|i: int| 0 <= i < snapshot.warnings.len() implies warnings[errors + i]
        == #[trigger] snapshot.warnings[i] by {}
}

/// The status of a reply with a snapshot, from what is stored and from whether this request could
/// inspect and save: live where every provider has a quote that counts and a recorded success, and
/// nothing failed to be inspected or saved; else degraded where any quote counts; else stale where
/// any quote has a usable price, which makes the reply a success; else unavailable.
pub proof fn law_replies_tell_what_counts(
    reply: PriceReply,
    report: ReportModel,
    state: PriceStateModel,
    snapshot: SnapshotModel,
    now_unix: i64,
    active_viewers: usize,
)
    requires
        replies(reply, report, Some(state), now_unix, active_viewers),
        state.snapshot == Some(snapshot),
    ensures
        reply.body.status == PriceStatus::Live <==> !report.persistence_failed && forall|
            source: UpstreamSource,
        | #[trigger]
            counted(snapshot.sources, source, now_unix) && succeeded(
                state.provider_health,
                source,
            ),
        reply.body.status != PriceStatus::Live ==> (reply.body.status == PriceStatus::Degraded
            <==> exists|source: UpstreamSource| #[trigger]
            counted(snapshot.sources, source, now_unix)),
        reply.body.status == PriceStatus::Unavailable <==> forall|i: int|
            0 <= i < snapshot.sources.len() ==> !(
            #[trigger] snapshot.sources[i]).price_usd.usable(),
        reply.status == 200 <==> reply.body.status != PriceStatus::Unavailable,
        reply.status == 503 <==> reply.body.status == PriceStatus::Unavailable,
{
    let evaluation = QuoteEvaluation {
        sources: reply.body.sources,
        contributing_prices: reply.body.contributing_prices,
        price_range: reply.body.price_range,
        status: evaluated_status(snapshot.sources, state.provider_health, now_unix),
        coverage: reply.body.coverage,
    };
    assert(shows(reply.body, snapshot, state.provider_health, report, now_unix));
    law_status_tells_what_counts(
        evaluation,
        snapshot.sources,
        state.provider_health,
        now_unix,
    );
    law_reply_status_tells_whether_quotes_are_stored(
        reply,
        report,
        Some(state),
        now_unix,
        active_viewers,
    );
    if evaluation.status == PriceStatus::Live {
        assert(counted(snapshot.sources, UpstreamSource::CoinGecko, now_unix));
    }
}

/// The schedule learns of each provider what the provider last answered.
pub proof fn law_answers_are_kept_apart(attempts: Seq<ProviderAttempt>, source: UpstreamSource)
    ensures
        answers_of(attempts).len() == 4,
        answers_of(attempts)[source.position() as int] == last_answer(attempts, source),
{
    assert(all_sources()[source.position() as int] == source);
}

/// A refresh that was not due is no failure: it has no errors, and its reason is told as it is.
pub proof fn law_skips_are_no_failures(reason: Seq<char>)
    ensures
        !skipped(reason).succeeded,
        !skipped(reason).persistence_failed,
        skipped(reason).errors.len() == 0,
        skipped(reason).skipped_reason == Some(reason),
{
}

/// What a report holds is what each of its fields holds, and what was read is what the state holds.
pub proof fn law_reports_hold_their_fields(report: RefreshReport, state: StoredPriceState)
    ensures
        report@.succeeded == report.succeeded,
        report@.skipped_reason == optional_text(report.skipped_reason),
        report@.errors == text_models(report.errors@),
        report@.persistence_failed == report.persistence_failed,
        inspected_state(Ok(state)) == Some(state@),
{
}

} // verus!
