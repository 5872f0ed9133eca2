//! The cached news feed.
use crate::body::append_chunk;
use crate::clock::{elapsed, seconds, Moment, NANOS_PER_SECOND};
use crate::models::{copy_optional_text, optional_text};
use crate::text::{contains_text, decode_text, holds, utf8_fault};
use vstd::prelude::*;
use vstd::utf8::{decode_utf8, valid_utf8};

verus! {

/// The shortest time between two fetches of the feed, in seconds.
pub const FEED_INTERVAL_SECONDS: u64 = 300;

/// The longest time for a fetch of the feed, in seconds.
pub const FEED_TIMEOUT_SECONDS: u64 = 12;

/// The largest accepted feed, in bytes.
pub const MAX_FEED_BYTES: usize = 2_097_152;

/// What is said of a feed that is too large.
pub open spec fn oversized_feed_text() -> Seq<char> {
    "RSS response exceeded size limit"@
}

/// Whether a text is a news feed.
pub open spec fn is_feed(text: Seq<char>) -> bool {
    holds(text, "<rss"@) && holds(text, "<channel"@)
}

/// What is wrong with a received feed.
pub open spec fn feed_fault(bytes: Seq<u8>) -> Option<Seq<char>> {
    if bytes.len() > MAX_FEED_BYTES {
        Some(oversized_feed_text())
    } else if !valid_utf8(bytes) {
        Some(utf8_fault(bytes))
    } else if !is_feed(decode_utf8(bytes)) {
        Some("Upstream did not return an RSS feed"@)
    } else {
        None
    }
}

/// Appends a received chunk to a feed, where it stays within the size limit.
pub fn receive_feed_chunk(feed: &mut Vec<u8>, chunk: &[u8]) -> (received: Result<(), String>)
    requires
        old(feed)@.len() <= MAX_FEED_BYTES,
    ensures
        match received {
            Ok(()) => {
                &&& old(feed)@.len() + chunk@.len() <= MAX_FEED_BYTES
                &&& final(feed)@ == old(feed)@ + chunk@
            },
            Err(message) => {
                &&& old(feed)@.len() + chunk@.len() > MAX_FEED_BYTES
                &&& message@ == oversized_feed_text()
                &&& final(feed)@ == old(feed)@
            },
        },
{
    if append_chunk(feed, chunk, MAX_FEED_BYTES) {
        Ok(())
    } else {
        Err("RSS response exceeded size limit".to_owned())
    }
}

/// Reads a received feed: a text within the size limit that looks like a feed.
pub fn read_feed(bytes: &[u8]) -> (feed: Result<String, String>)
    ensures
        match feed {
            Ok(xml) => feed_fault(bytes@) is None && xml@ == decode_utf8(bytes@),
            Err(message) => feed_fault(bytes@) == Some(message@),
        },
{
    if bytes.len() > MAX_FEED_BYTES {
        return Err("RSS response exceeded size limit".to_owned());
    }
    match decode_text(bytes) {
        Ok(text) => if contains_text(text, "<rss") && contains_text(text, "<channel") {
            Ok(text.to_owned())
        } else {
            Err("Upstream did not return an RSS feed".to_owned())
        },
        Err(message) => Err(message),
    }
}

/// The feed as it was last fetched.
#[derive(Debug, PartialEq)]
pub struct FeedCache {
    /// When the feed was last asked for, with or without success.
    pub checked_at: Option<Moment>,
    pub xml: Option<String>,
    /// Whether the last fetch failed.
    pub stale: bool,
}

/// The reply with the feed.
#[derive(Debug, PartialEq)]
pub struct FeedReply {
    pub status: u16,
    pub xml: Option<String>,
    pub stale: bool,
}

/// The text of a fetched feed.
pub open spec fn fetched_text(fetched: Result<String, String>) -> Option<Seq<char>> {
    match fetched {
        Ok(xml) => Some(xml@),
        Err(_) => None,
    }
}

impl Default for FeedCache {
    fn default() -> (cache: Self)
        ensures
            cache.checked_at is None,
            cache.xml is None,
            !cache.stale,
    {
        FeedCache { checked_at: None, xml: None, stale: false }
    }
}

impl FeedCache {
    /// Whether the feed is to be fetched: never yet, or not since the interval.
    pub open spec fn due_at(self, now: Moment) -> bool {
        self.checked_at matches Some(at) ==> elapsed(at, now) >= seconds(
            FEED_INTERVAL_SECONDS as int,
        )
    }

    /// Whether the feed is to be fetched.
    pub fn is_due(&self, now: Moment) -> (due: bool)
        ensures
            due == self.due_at(now),
    {
        match self.checked_at {
            Some(at) => now.since(at) >= FEED_INTERVAL_SECONDS as u128 * NANOS_PER_SECOND,
            None => true,
        }
    }

    /// Takes in a fetch. A failure keeps the feed of before and marks it as stale; either way the
    /// interval starts over.
    pub fn record(&mut self, fetched: Result<String, String>, now: Moment)
        ensures
            final(self).checked_at == Some(now),
            optional_text(final(self).xml) == match fetched_text(fetched) {
                Some(xml) => Some(xml),
                None => optional_text(old(self).xml),
            },
            final(self).stale == (fetched is Err),
    {
        match fetched {
            Ok(xml) => {
                self.xml = Some(xml);
                self.stale = false;
            },
            Err(_) => {
                self.stale = true;
            },
        }
        self.checked_at = Some(now);
    }

    /// The reply with the feed, where there has been one.
    pub fn reply(&self) -> (reply: FeedReply)
        ensures
            reply.status == if self.xml is Some {
                200u16
            } else {
                503u16
            },
            optional_text(reply.xml) == optional_text(self.xml),
            reply.stale == self.stale,
    {
        let status = if self.xml.is_some() {
            200
        } else {
            503
        };
        FeedReply { status, xml: copy_optional_text(&self.xml), stale: self.stale }
    }
}

/// The feed is asked for at most once in an interval, whether a fetch succeeds or fails.
pub proof fn law_fetches_keep_their_distance(after: FeedCache, first: Moment, second: Moment)
    requires
        after.checked_at == Some(first),
        after.due_at(second),
    ensures
        second.nanos >= first.nanos + seconds(FEED_INTERVAL_SECONDS as int),
{
}

/// A feed is fetched where it never was, or where the last fetch was at least five minutes ago.
pub proof fn law_feeds_are_due_every_five_minutes(cache: FeedCache, now: Moment)
    ensures
        cache.due_at(now) <==> cache.checked_at is None || now.nanos
            >= cache.checked_at->0.nanos + 300_000_000_000,
{
}

/// A received feed is accepted where it has at most two mebibytes, is valid UTF-8, and holds the
/// starts of an RSS element and of a channel. Else the first of these that fails is told.
pub proof fn law_feeds_are_short_valid_and_rss(bytes: Seq<u8>)
    ensures
        ({
            let short = bytes.len() <= 2_097_152;
            let rss = holds(decode_utf8(bytes), "<rss"@) && holds(
                decode_utf8(bytes),
                "<channel"@,
            );
            &&& feed_fault(bytes) is None <==> short && valid_utf8(bytes) && rss
            &&& !short ==> feed_fault(bytes) == Some("RSS response exceeded size limit"@)
            &&& short && !valid_utf8(bytes) ==> feed_fault(bytes) == Some(utf8_fault(bytes))
            &&& short && valid_utf8(bytes) && !rss ==> feed_fault(bytes) == Some(
                "Upstream did not return an RSS feed"@,
            )
        }),
{
}

/// A fetched feed is its text as it is; a failed fetch has none.
pub proof fn law_fetched_feeds_are_taken_as_they_are(xml: String, error: String)
    ensures
        fetched_text(Ok(xml)) == Some(xml@),
        fetched_text(Err(error)) is None,
{
}

} // verus!
