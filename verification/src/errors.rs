//! Provider failures and what clients may learn of them.
use crate::models::optional_text;
use crate::models::source_contract::{ErrorCategory, SourceError, SourceErrorModel};
use crate::sources::{source_name, UpstreamSource};
use crate::text::{
    all_digits, append_decimal, ascii_chars, decimal, decode_text, digits_value,
    law_digits_are_ascii_digits, lemma_ascii_decodes, only_digits, parse_digits, trim_blanks,
    trimmed,
};
use vstd::prelude::*;

verus! {

/// The first Unix second that no HTTP date can show.
pub const HTTP_DATE_END: u64 = 253_402_300_800;

/// A provider's wish to be left alone for a while.
#[derive(Clone, Copy, Debug, PartialEq, Eq, Structural)]
pub enum RetryAfter {
    /// For a number of seconds.
    Delay(u64),
    /// Until a time, in Unix seconds.
    At(u64),
}

/// What `httpdate::parse_http_date` makes of a text, in Unix seconds.
pub uninterp spec fn http_date_seconds(text: Seq<char>) -> Option<u64>;

/// What `httpdate::fmt_http_date` writes for a time in Unix seconds.
pub uninterp spec fn http_date_text(seconds: u64) -> Seq<char>;

/// The reason phrase that `http::StatusCode` shows behind a status code.
pub uninterp spec fn reason_phrase(status: u16) -> Seq<char>;

/// Reads a date with `httpdate::parse_http_date`. The result is a function of the text, and lies
/// before the end of the year 9999: the parser accepts no later year.
#[verifier::external_body]
fn parse_http_date(text: &str) -> (seconds: Option<u64>)
    ensures
        seconds == http_date_seconds(text@),
        seconds matches Some(time) ==> time < HTTP_DATE_END,
{
    let time = httpdate::parse_http_date(text).ok()?;
    Some(time.duration_since(std::time::UNIX_EPOCH).ok()?.as_secs())
}

/// Writes a date with `httpdate::fmt_http_date`, which panics from the year 10000 on. The text is
/// a function of the time.
#[verifier::external_body]
fn format_http_date(seconds: u64) -> (text: String)
    requires
        seconds < HTTP_DATE_END,
    ensures
        text@ == http_date_text(seconds),
{
    httpdate::fmt_http_date(std::time::UNIX_EPOCH + std::time::Duration::from_secs(seconds))
}

/// Writes a status as `http::StatusCode` shows it: the code, a space and a reason phrase that
/// depends on the code alone. Only codes of three digits, from 100 on, have a `StatusCode`.
#[verifier::external_body]
fn format_status(status: u16) -> (text: String)
    requires
        100 <= status <= 999,
    ensures
        text@ == decimal(status as nat) + " "@ + reason_phrase(status),
{
    axum::http::StatusCode::from_u16(status).unwrap().to_string()
}

/// Whether every byte can stand in a readable header value.
pub open spec fn readable(value: Seq<u8>) -> bool {
    forall|i: int| 0 <= i < value.len() ==> readable_byte(#[trigger] value[i])
}

/// Whether a byte is visible ASCII, a space or a tab.
pub open spec fn readable_byte(byte: u8) -> bool {
    32 <= byte < 127 || byte == 9
}

/// The wish that a header value expresses, given the date that it reads as.
pub open spec fn retry_hint(value: Seq<u8>, date: Option<u64>) -> Option<RetryAfter> {
    let text = trimmed(value);
    if !readable(value) {
        None
    } else if text.len() > 0 && all_digits(text) {
        if digits_value(text) <= u64::MAX {
            Some(RetryAfter::Delay(digits_value(text) as u64))
        } else {
            None
        }
    } else {
        match date {
            Some(time) => Some(RetryAfter::At(time)),
            None => None,
        }
    }
}

impl RetryAfter {
    /// Whether a date stands before the end of the dates.
    pub open spec fn presentable(self) -> bool {
        self matches RetryAfter::At(time) ==> time < HTTP_DATE_END
    }

    /// Reads the value of a `Retry-After` header: a number of seconds or an HTTP date.
    pub fn parse(value: &[u8]) -> (hint: Option<RetryAfter>)
        ensures
            hint == retry_hint(value@, http_date_seconds(ascii_chars(trimmed(value@)))),
            hint matches Some(hint) ==> hint.presentable(),
    {
        let date = if is_readable(value) {
            let text = trim_blanks(value);
            proof {
                let (start, end) = choose|start: int, end: int|
                    0 <= start <= end <= value@.len() && text@ == #[trigger] value@.subrange(
                        start,
                        end,
                    );
                assert forall|i: int| 0 <= i < text@.len() implies #[trigger] text@[i] < 128 by {
                    assert(readable_byte(value@[start + i]));
                }
                lemma_ascii_decodes(text@);
            }
            match decode_text(text) {
                Ok(text) => parse_http_date(text),
                Err(_) => None,
            }
        } else {
            None
        };
        RetryAfter::with_date(value, date)
    }

    /// Reads the value of a `Retry-After` header, given the date that it reads as.
    pub fn with_date(value: &[u8], date: Option<u64>) -> (hint: Option<RetryAfter>)
        ensures
            hint == retry_hint(value@, date),
    {
        if !is_readable(value) {
            return None;
        }
        let text = trim_blanks(value);
        if text.len() > 0 && only_digits(text) {
            match parse_digits(text) {
                Some(count) => Some(RetryAfter::Delay(count)),
                None => None,
            }
        } else {
            match date {
                Some(time) => Some(RetryAfter::At(time)),
                None => None,
            }
        }
    }
}

/// Whether every byte can stand in a readable header value.
fn is_readable(value: &[u8]) -> (yes: bool)
    ensures
        yes == readable(value@),
{
    let mut i: usize = 0;
    while i < value.len()
        invariant
            i <= value@.len(),
            forall|j: int| 0 <= j < i ==> readable_byte(#[trigger] value@[j]),
        decreases value@.len() - i,
    {
        let byte = value[i];
        if !((32 <= byte && byte < 127) || byte == 9) {
            assert(!readable_byte(value@[i as int]));
            return false;
        }
        i += 1;
    }
    true
}

/// How a provider failed. What caused it is for the log, never for clients.
#[derive(Debug, PartialEq)]
pub enum ProviderErrorKind {
    Timeout(String),
    Transport(String),
    Http { status: u16, retry_after: Option<RetryAfter> },
    /// A payload that is no JSON has the parser's fault as its cause; any other has none.
    InvalidPayload { reason: &'static str, cause: Option<String> },
    InvalidPrice { field: &'static str, reason: &'static str },
}

/// A provider's failure.
#[derive(Debug, PartialEq)]
pub struct ProviderError {
    pub provider: UpstreamSource,
    pub kind: ProviderErrorKind,
}

/// What a failure tells clients.
pub open spec fn failure_text(error: ProviderError) -> Seq<char> {
    source_name(error.provider) + " "@ + match error.kind {
        ProviderErrorKind::Timeout(_) => "request timed out"@,
        ProviderErrorKind::Transport(_) => "request failed"@,
        ProviderErrorKind::Http { status, retry_after } => "HTTP error: "@ + decimal(status as nat)
            + " "@ + reason_phrase(status) + match retry_after {
            Some(RetryAfter::Delay(count)) => "; retry after "@ + decimal(count as nat) + "s"@,
            Some(RetryAfter::At(time)) => "; retry at "@ + http_date_text(time),
            None => Seq::empty(),
        },
        ProviderErrorKind::InvalidPayload { reason, .. } => "response invalid: "@ + reason@,
        ProviderErrorKind::InvalidPrice { field, reason } => "price invalid at "@ + field@ + ": "@
            + reason@,
    }
}

/// The class of a failure.
pub open spec fn category_of(kind: ProviderErrorKind) -> ErrorCategory {
    match kind {
        ProviderErrorKind::Timeout(_) => ErrorCategory::Timeout,
        ProviderErrorKind::Transport(_) => ErrorCategory::Transport,
        ProviderErrorKind::Http { .. } => ErrorCategory::Http,
        ProviderErrorKind::InvalidPayload { .. } => ErrorCategory::InvalidPayload,
        ProviderErrorKind::InvalidPrice { .. } => ErrorCategory::InvalidPrice,
    }
}

/// The status code of a failure that has one.
pub open spec fn status_of_failure(kind: ProviderErrorKind) -> Option<u16> {
    match kind {
        ProviderErrorKind::Http { status, .. } => Some(status),
        _ => None,
    }
}

/// What health records keep of a failure.
pub open spec fn recorded_failure(error: ProviderError) -> SourceErrorModel {
    SourceErrorModel {
        category: category_of(error.kind),
        message: failure_text(error),
        http_status: status_of_failure(error.kind),
    }
}

impl ProviderError {
    /// Whether a status, where there is one, is a status code, and its hint can be shown.
    pub open spec fn presentable(self) -> bool {
        self.kind matches ProviderErrorKind::Http { status, retry_after } ==> {
            &&& 100 <= status <= 999
            &&& retry_after matches Some(hint) ==> hint.presentable()
        }
    }

    /// What caused the failure, where that is known.
    pub open spec fn known_cause(self) -> Option<Seq<char>> {
        match self.kind {
            ProviderErrorKind::Timeout(cause) => Some(cause@),
            ProviderErrorKind::Transport(cause) => Some(cause@),
            ProviderErrorKind::InvalidPayload { cause, .. } => optional_text(cause),
            _ => None,
        }
    }

    /// Classifies a failed request and keeps its cause. Reading a body can time out too, so that
    /// comes first; of the others only those that a JSON parser caused are faults of the payload.
    pub fn from_request(
        provider: UpstreamSource,
        timed_out: bool,
        invalid_json: bool,
        cause: String,
    ) -> (error: ProviderError)
        ensures
            error == (ProviderError {
                provider,
                kind: if timed_out {
                    ProviderErrorKind::Timeout(cause)
                } else if invalid_json {
                    ProviderErrorKind::InvalidPayload {
                        reason: "invalid JSON",
                        cause: Some(cause),
                    }
                } else {
                    ProviderErrorKind::Transport(cause)
                },
            }),
            error.presentable(),
    {
        let kind = if timed_out {
            ProviderErrorKind::Timeout(cause)
        } else if invalid_json {
            ProviderErrorKind::InvalidPayload { reason: "invalid JSON", cause: Some(cause) }
        } else {
            ProviderErrorKind::Transport(cause)
        };
        ProviderError { provider, kind }
    }

    /// A payload that lacks what it should hold.
    pub fn invalid_payload(provider: UpstreamSource, reason: &'static str) -> (error: ProviderError)
        ensures
            error == (ProviderError {
                provider,
                kind: ProviderErrorKind::InvalidPayload { reason, cause: None },
            }),
            error.presentable(),
    {
        ProviderError { provider, kind: ProviderErrorKind::InvalidPayload { reason, cause: None } }
    }

    /// An answer whose declared or received body is over the size limit.
    pub fn oversized_response(provider: UpstreamSource) -> (error: ProviderError)
        ensures
            error == (ProviderError {
                provider,
                kind: ProviderErrorKind::InvalidPayload {
                    reason: "response exceeded size limit",
                    cause: None,
                },
            }),
            error.presentable(),
    {
        ProviderError::invalid_payload(provider, "response exceeded size limit")
    }

    /// A price that cannot be one.
    pub fn invalid_price(
        provider: UpstreamSource,
        field: &'static str,
        reason: &'static str,
    ) -> (error: ProviderError)
        ensures
            error == (ProviderError {
                provider,
                kind: ProviderErrorKind::InvalidPrice { field, reason },
            }),
            error.presentable(),
    {
        ProviderError { provider, kind: ProviderErrorKind::InvalidPrice { field, reason } }
    }

    /// The same failure once more.
    pub(crate) fn copy(&self) -> (error: ProviderError)
        ensures
            error == *self,
    {
        let kind = match &self.kind {
            ProviderErrorKind::Timeout(cause) => ProviderErrorKind::Timeout(cause.clone()),
            ProviderErrorKind::Transport(cause) => ProviderErrorKind::Transport(cause.clone()),
            ProviderErrorKind::Http { status, retry_after } => ProviderErrorKind::Http {
                status: *status,
                retry_after: *retry_after,
            },
            ProviderErrorKind::InvalidPayload { reason, cause } => {
                ProviderErrorKind::InvalidPayload {
                    reason: *reason,
                    cause: match cause {
                        Some(cause) => Some(cause.clone()),
                        None => None,
                    },
                }
            },
            ProviderErrorKind::InvalidPrice { field, reason } => ProviderErrorKind::InvalidPrice {
                field: *field,
                reason: *reason,
            },
        };
        ProviderError { provider: self.provider, kind }
    }

    /// What caused the failure, for the log.
    pub fn cause(&self) -> (cause: Option<&str>)
        ensures
            match cause {
                Some(cause) => self.known_cause() == Some(cause@),
                None => self.known_cause() is None,
            },
    {
        match &self.kind {
            ProviderErrorKind::Timeout(cause) => Some(cause.as_str()),
            ProviderErrorKind::Transport(cause) => Some(cause.as_str()),
            ProviderErrorKind::InvalidPayload { cause: Some(cause), .. } => Some(cause.as_str()),
            _ => None,
        }
    }

    /// What the failure tells clients. Its cause is no part of that.
    pub fn message(&self) -> (text: String)
        requires
            self.presentable(),
        ensures
            text@ == failure_text(*self),
    {
        let mut text = self.provider.name().to_owned();
        text.append(" ");
        match &self.kind {
            ProviderErrorKind::Timeout(_) => text.append("request timed out"),
            ProviderErrorKind::Transport(_) => text.append("request failed"),
            ProviderErrorKind::Http { status, retry_after } => {
                text.append("HTTP error: ");
                text.append(format_status(*status).as_str());
                match *retry_after {
                    Some(RetryAfter::Delay(count)) => {
                        text.append("; retry after ");
                        append_decimal(&mut text, count);
                        text.append("s");
                    },
                    Some(RetryAfter::At(time)) => {
                        text.append("; retry at ");
                        text.append(format_http_date(time).as_str());
                    },
                    None => {},
                }
            },
            ProviderErrorKind::InvalidPayload { reason, .. } => {
                text.append("response invalid: ");
                text.append(*reason);
            },
            ProviderErrorKind::InvalidPrice { field, reason } => {
                text.append("price invalid at ");
                text.append(*field);
                text.append(": ");
                text.append(*reason);
            },
        }
        assert(text@ =~= failure_text(*self));
        text
    }

    /// What health records keep of the failure.
    pub fn source_error(&self) -> (error: SourceError)
        requires
            self.presentable(),
        ensures
            error@ == recorded_failure(*self),
    {
        let category = match self.kind {
            ProviderErrorKind::Timeout(_) => ErrorCategory::Timeout,
            ProviderErrorKind::Transport(_) => ErrorCategory::Transport,
            ProviderErrorKind::Http { .. } => ErrorCategory::Http,
            ProviderErrorKind::InvalidPayload { .. } => ErrorCategory::InvalidPayload,
            ProviderErrorKind::InvalidPrice { .. } => ErrorCategory::InvalidPrice,
        };
        let http_status = match self.kind {
            ProviderErrorKind::Http { status, .. } => Some(status),
            _ => None,
        };
        SourceError { category, message: self.message(), http_status }
    }

    /// How long the provider asks to be left alone.
    pub open spec fn wish(self) -> Option<RetryAfter> {
        match self.kind {
            ProviderErrorKind::Http { retry_after, .. } => retry_after,
            _ => None,
        }
    }

    /// How long the provider asks to be left alone.
    pub fn retry_after(&self) -> (hint: Option<RetryAfter>)
        ensures
            hint == self.wish(),
    {
        match self.kind {
            ProviderErrorKind::Http { retry_after, .. } => retry_after,
            _ => None,
        }
    }
}

/// Why a refresh failed.
#[derive(Debug, PartialEq)]
pub enum RefreshError {
    Provider(ProviderError),
    /// Details for the log, never for clients.
    Storage(String),
}

/// What a failed refresh tells clients.
pub open spec fn refresh_failure_text(error: RefreshError) -> Seq<char> {
    match error {
        RefreshError::Provider(error) => failure_text(error),
        RefreshError::Storage(_) => "Failed to store refreshed price data"@,
    }
}

impl RefreshError {
    /// What the failure tells clients.
    pub fn message(&self) -> (text: String)
        requires
            self matches RefreshError::Provider(error) ==> error.presentable(),
        ensures
            text@ == refresh_failure_text(*self),
    {
        match self {
            RefreshError::Provider(error) => error.message(),
            RefreshError::Storage(_) => "Failed to store refreshed price data".to_owned(),
        }
    }
}

/// What clients learn of a storage failure does not depend on its details.
pub proof fn law_storage_details_stay_private(one: String, other: String)
    ensures
        refresh_failure_text(RefreshError::Storage(one)) == refresh_failure_text(
            RefreshError::Storage(other),
        ),
{
}

/// What clients learn of a failure, in replies and in health records, does not depend on its cause.
pub proof fn law_causes_stay_private(
    provider: UpstreamSource,
    reason: &'static str,
    one: String,
    other: String,
    first: Option<String>,
    second: Option<String>,
)
    ensures
        recorded_failure(ProviderError { provider, kind: ProviderErrorKind::Timeout(one) })
            == recorded_failure(
            ProviderError { provider, kind: ProviderErrorKind::Timeout(other) },
        ),
        recorded_failure(ProviderError { provider, kind: ProviderErrorKind::Transport(one) })
            == recorded_failure(
            ProviderError { provider, kind: ProviderErrorKind::Transport(other) },
        ),
        recorded_failure(
            ProviderError {
                provider,
                kind: ProviderErrorKind::InvalidPayload { reason, cause: first },
            },
        ) == recorded_failure(
            ProviderError {
                provider,
                kind: ProviderErrorKind::InvalidPayload { reason, cause: second },
            },
        ),
{
}

/// A failure is recorded with a status code where it is an HTTP failure, and only there.
pub proof fn law_only_http_failures_have_a_status(error: ProviderError)
    ensures
        recorded_failure(error).http_status is Some <==> recorded_failure(error).category
            == ErrorCategory::Http,
{
}

/// A `Retry-After` header counts where it holds visible ASCII, spaces and tabs only. Without the
/// spaces and tabs around it, digits alone are a number of seconds, where it can be held; anything
/// else counts as the date that it reads as, if any.
pub proof fn law_hints_are_seconds_or_dates(value: Seq<u8>, date: Option<u64>)
    ensures
        ({
            let clean = forall|i: int|
                0 <= i < value.len() ==> 32 <= #[trigger] value[i] <= 126 || value[i] == 9;
            let text = trimmed(value);
            let number = text.len() > 0 && forall|i: int|
                0 <= i < text.len() ==> 48 <= #[trigger] text[i] <= 57;
            &&& !clean ==> retry_hint(value, date) is None
            &&& clean && number && digits_value(text) <= u64::MAX ==> retry_hint(value, date)
                == Some(RetryAfter::Delay(digits_value(text) as u64))
            &&& clean && number && digits_value(text) > u64::MAX ==> retry_hint(value, date) is None
            &&& clean && !number && date is None ==> retry_hint(value, date) is None
            &&& clean && !number && date is Some ==> retry_hint(value, date) == Some(
                RetryAfter::At(date->0),
            )
        }),
{
    assert forall|i: int| 0 <= i < value.len() implies (readable_byte(#[trigger] value[i]) <==> (32
        <= value[i] <= 126 || value[i] == 9)) by {}
    law_digits_are_ascii_digits(trimmed(value));
}

/// What clients are told of a failure: whose it is, and of which kind. A status is shown with its
/// reason phrase and with the provider's wish, if any; an invalid payload with its reason; an
/// invalid price with its field and its reason.
pub proof fn law_failures_are_told_by_provider_and_kind(error: ProviderError)
    ensures
        ({
            let name = source_name(error.provider);
            match error.kind {
                ProviderErrorKind::Timeout(_) => failure_text(error) == name + " "@
                    + "request timed out"@,
                ProviderErrorKind::Transport(_) => failure_text(error) == name + " "@
                    + "request failed"@,
                ProviderErrorKind::Http { status, retry_after: None } => failure_text(error) == name
                    + " "@ + "HTTP error: "@ + decimal(status as nat) + " "@ + reason_phrase(
                    status,
                ),
                ProviderErrorKind::Http { status, retry_after: Some(RetryAfter::Delay(count)) } => {
                    failure_text(error) == name + " "@ + "HTTP error: "@ + decimal(status as nat)
                        + " "@ + reason_phrase(status) + "; retry after "@ + decimal(count as nat)
                        + "s"@
                },
                ProviderErrorKind::Http { status, retry_after: Some(RetryAfter::At(time)) } => {
                    failure_text(error) == name + " "@ + "HTTP error: "@ + decimal(status as nat)
                        + " "@ + reason_phrase(status) + "; retry at "@ + http_date_text(time)
                },
                ProviderErrorKind::InvalidPayload { reason, .. } => failure_text(error) == name
                    + " "@ + "response invalid: "@ + reason@,
                ProviderErrorKind::InvalidPrice { field, reason } => failure_text(error) == name
                    + " "@ + "price invalid at "@ + field@ + ": "@ + reason@,
            }
        }),
{
    let name = source_name(error.provider);
    match error.kind {
        ProviderErrorKind::Http { status, retry_after } => {
            let start = name + " "@ + "HTTP error: "@ + decimal(status as nat) + " "@
                + reason_phrase(status);
            match retry_after {
                None => {
                    assert(failure_text(error) =~= start);
                },
                Some(RetryAfter::Delay(count)) => {
                    assert(failure_text(error) =~= start + "; retry after "@ + decimal(count as nat)
                        + "s"@);
                },
                Some(RetryAfter::At(time)) => {
                    assert(failure_text(error) =~= start + "; retry at "@ + http_date_text(time));
                },
            }
        },
        ProviderErrorKind::InvalidPayload { reason, .. } => {
            assert(failure_text(error) =~= name + " "@ + "response invalid: "@ + reason@);
        },
        ProviderErrorKind::InvalidPrice { field, reason } => {
            assert(failure_text(error) =~= name + " "@ + "price invalid at "@ + field@ + ": "@
                + reason@);
        },
        _ => {},
    }
}

/// A failure is recorded under its own kind, with what clients are told and with its status, if
/// any.
pub proof fn law_failures_are_recorded_under_their_kind(error: ProviderError)
    ensures
        recorded_failure(error).message == failure_text(error),
        match error.kind {
            ProviderErrorKind::Timeout(_) => recorded_failure(error).category
                == ErrorCategory::Timeout && recorded_failure(error).http_status is None,
            ProviderErrorKind::Transport(_) => recorded_failure(error).category
                == ErrorCategory::Transport && recorded_failure(error).http_status is None,
            ProviderErrorKind::Http { status, .. } => recorded_failure(error).category
                == ErrorCategory::Http && recorded_failure(error).http_status == Some(status),
            ProviderErrorKind::InvalidPayload { .. } => recorded_failure(error).category
                == ErrorCategory::InvalidPayload && recorded_failure(error).http_status is None,
            ProviderErrorKind::InvalidPrice { .. } => recorded_failure(error).category
                == ErrorCategory::InvalidPrice && recorded_failure(error).http_status is None,
        },
{
}

/// What a refresh failed of is told as the provider's failure, or as one of storage without
/// details.
pub proof fn law_refresh_failures_are_told_safely(error: RefreshError)
    ensures
        match error {
            RefreshError::Provider(failure) => refresh_failure_text(error) == failure_text(failure),
            RefreshError::Storage(_) => refresh_failure_text(error)
                == "Failed to store refreshed price data"@,
        },
{
}

/// The cause of a failed request, and of a payload that is no JSON, is kept as it is; other
/// failures have none. Only a status comes with a wish.
pub proof fn law_causes_and_wishes_are_kept(error: ProviderError)
    ensures
        match error.kind {
            ProviderErrorKind::Timeout(cause) => error.known_cause() == Some(cause@)
                && error.wish() is None,
            ProviderErrorKind::Transport(cause) => error.known_cause() == Some(cause@)
                && error.wish() is None,
            ProviderErrorKind::Http { retry_after, .. } => error.known_cause() is None
                && error.wish() == retry_after,
            ProviderErrorKind::InvalidPayload { cause: Some(cause), .. } => error.known_cause()
                == Some(cause@) && error.wish() is None,
            _ => error.known_cause() is None && error.wish() is None,
        },
{
}

} // verus!
