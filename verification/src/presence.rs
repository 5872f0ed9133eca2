//! Who is watching.
use crate::clock::{elapsed, seconds, Moment, NANOS_PER_SECOND};
use crate::config::{REFRESH_INTERVAL_SECONDS, VIEWER_TTL_SECONDS};
use crate::freshness::{age_at, observation_age};
use crate::models::{optional_text, PresencePayload, SnapshotRecord};
use crate::text::{
    append_signed, only_plain_chars, plain_char, plain_chars, same_text, signed_decimal,
};
use vstd::prelude::*;
use vstd::utf8::{is_ascii_chars, is_ascii_chars_encode_utf8};

verus! {

/// The longest accepted session identifier, in bytes.
pub const SESSION_ID_BYTES: usize = 128;

/// A viewer and its last heartbeat.
#[derive(Debug, PartialEq)]
pub struct Viewer {
    pub session_id: String,
    pub last_seen: Moment,
}

/// The viewers that are tracked, each with its last heartbeat.
#[derive(Debug, PartialEq)]
pub struct Viewers {
    entries: Vec<Viewer>,
}

/// The heartbeats of a list of viewers.
pub closed spec fn heartbeats(entries: Seq<Viewer>) -> Map<Seq<char>, Moment>
    decreases entries.len(),
{
    if entries.len() == 0 {
        Map::empty()
    } else {
        heartbeats(entries.drop_last()).insert(
            entries.last().session_id@,
            entries.last().last_seen,
        )
    }
}

/// Whether no two viewers of a list share an identifier.
pub closed spec fn distinct_viewers(entries: Seq<Viewer>) -> bool {
    forall|i: int, j: int|
        0 <= i < j < entries.len() ==> (#[trigger] entries[i]).session_id@ != (
        #[trigger] entries[j]).session_id@
}

impl View for Viewers {
    type V = Map<Seq<char>, Moment>;

    closed spec fn view(&self) -> Map<Seq<char>, Moment> {
        heartbeats(self.entries@)
    }
}

proof fn lemma_heartbeats(entries: Seq<Viewer>)
    requires
        distinct_viewers(entries),
    ensures
        heartbeats(entries).dom().finite(),
        heartbeats(entries).dom().len() == entries.len(),
        forall|i: int|
            #![trigger entries[i]]
            0 <= i < entries.len() ==> heartbeats(entries).contains_key(entries[i].session_id@)
                && heartbeats(entries)[entries[i].session_id@] == entries[i].last_seen,
        forall|id: Seq<char>| #[trigger]
            heartbeats(entries).contains_key(id) ==> exists|i: int|
                0 <= i < entries.len() && (#[trigger] entries[i]).session_id@ == id,
    decreases entries.len(),
{
    if entries.len() > 0 {
        let before = entries.drop_last();
        let last = entries.last();
        assert(distinct_viewers(before)) by {
            assert forall|i: int, j: int| 0 <= i < j < before.len() implies (
            #[trigger] before[i]).session_id@ != (#[trigger] before[j]).session_id@ by {
                assert(before[i] == entries[i] && before[j] == entries[j]);
            }
        }
        lemma_heartbeats(before);
        assert(!heartbeats(before).contains_key(last.session_id@)) by {
            if heartbeats(before).contains_key(last.session_id@) {
                let i = choose|i: int|
                    0 <= i < before.len() && (#[trigger] before[i]).session_id@ == last.session_id@;
                assert(before[i] == entries[i]);
                assert(entries[entries.len() - 1] == last);
            }
        }
        assert forall|i: int| #![trigger entries[i]] 0 <= i < entries.len() implies heartbeats(
            entries,
        ).contains_key(entries[i].session_id@) && heartbeats(entries)[entries[i].session_id@]
            == entries[i].last_seen by {
            if i < before.len() {
                assert(before[i] == entries[i]);
            }
        }
        assert forall|id: Seq<char>| #[trigger]
            heartbeats(entries).contains_key(id) implies exists|i: int|
            0 <= i < entries.len() && (#[trigger] entries[i]).session_id@ == id by {
            if id == last.session_id@ {
                assert(entries[entries.len() - 1].session_id@ == id);
            } else {
                assert(heartbeats(before).contains_key(id));
                let i = choose|i: int|
                    0 <= i < before.len() && (#[trigger] before[i]).session_id@ == id;
                assert(entries[i].session_id@ == id);
            }
        }
    }
}

/// Lists with the same heartbeats for every identifier are the same map.
proof fn lemma_same_heartbeats(entries: Seq<Viewer>, map: Map<Seq<char>, Moment>)
    requires
        distinct_viewers(entries),
        forall|i: int|
            #![trigger entries[i]]
            0 <= i < entries.len() ==> map.contains_key(entries[i].session_id@)
                && map[entries[i].session_id@] == entries[i].last_seen,
        forall|id: Seq<char>| #[trigger]
            map.contains_key(id) ==> exists|i: int|
                0 <= i < entries.len() && (#[trigger] entries[i]).session_id@ == id,
    ensures
        heartbeats(entries) == map,
{
    lemma_heartbeats(entries);
    assert forall|id: Seq<char>| heartbeats(entries).contains_key(id) == map.contains_key(id) by {
        if heartbeats(entries).contains_key(id) {
            let i = choose|i: int|
                0 <= i < entries.len() && (#[trigger] entries[i]).session_id@ == id;
            assert(map.contains_key(entries[i].session_id@));
        }
        if map.contains_key(id) {
            let i = choose|i: int|
                0 <= i < entries.len() && (#[trigger] entries[i]).session_id@ == id;
            assert(heartbeats(entries).contains_key(entries[i].session_id@));
        }
    }
    assert forall|id: Seq<char>| heartbeats(entries).contains_key(id) implies heartbeats(
        entries,
    )[id] == map[id] by {
        let i = choose|i: int| 0 <= i < entries.len() && (#[trigger] entries[i]).session_id@ == id;
        assert(map[entries[i].session_id@] == entries[i].last_seen);
    }
    assert(heartbeats(entries) =~= map);
}

impl Viewers {
    /// Whether each viewer is tracked once.
    pub closed spec fn wf(self) -> bool {
        distinct_viewers(self.entries@)
    }

    /// Nobody.
    pub fn new() -> (viewers: Viewers)
        ensures
            viewers.wf(),
            viewers@ == Map::<Seq<char>, Moment>::empty(),
    {
        Viewers { entries: Vec::new() }
    }

    /// The number of tracked viewers.
    pub fn len(&self) -> (count: usize)
        requires
            self.wf(),
        ensures
            self@.dom().finite(),
            count == self@.dom().len(),
    {
        proof {
            lemma_heartbeats(self.entries@);
        }
        self.entries.len()
    }

    /// The place of a viewer in the list.
    fn place(&self, session_id: &str) -> (place: Option<usize>)
        requires
            self.wf(),
        ensures
            match place {
                Some(i) => {
                    &&& i < self.entries@.len()
                    &&& self.entries@[i as int].session_id@ == session_id@
                    &&& self@.contains_key(session_id@)
                    &&& self@[session_id@] == self.entries@[i as int].last_seen
                },
                None => !self@.contains_key(session_id@),
            },
    {
        proof {
            lemma_heartbeats(self.entries@);
        }
        let mut i: usize = 0;
        while i < self.entries.len()
            invariant
                i <= self.entries@.len(),
                forall|j: int|
                    0 <= j < i ==> (#[trigger] self.entries@[j]).session_id@ != session_id@,
                forall|j: int|
                    #![trigger self.entries@[j]]
                    0 <= j < self.entries@.len() ==> self@.contains_key(
                        self.entries@[j].session_id@,
                    ) && self@[self.entries@[j].session_id@] == self.entries@[j].last_seen,
            decreases self.entries@.len() - i,
        {
            if same_text(self.entries[i].session_id.as_str(), session_id) {
                return Some(i);
            }
            i += 1;
        }
        None
    }

    /// Whether a viewer is tracked.
    pub fn contains_key(&self, session_id: &str) -> (known: bool)
        requires
            self.wf(),
        ensures
            known == self@.contains_key(session_id@),
    {
        self.place(session_id).is_some()
    }

    /// Tracks a viewer's heartbeat.
    pub fn insert(&mut self, session_id: String, now: Moment)
        requires
            old(self).wf(),
        ensures
            final(self).wf(),
            final(self)@ == old(self)@.insert(session_id@, now),
    {
        let ghost before = self.entries@;
        proof {
            lemma_heartbeats(before);
        }
        match self.place(session_id.as_str()) {
            Some(i) => {
                let ghost id = session_id@;
                self.entries.set(i, Viewer { session_id, last_seen: now });
                proof {
                    let after = self.entries@;
                    assert(distinct_viewers(after)) by {
                        assert forall|j: int, k: int| 0 <= j < k < after.len() implies (
                        #[trigger] after[j]).session_id@ != (#[trigger] after[k]).session_id@ by {
                            assert(after[j].session_id@ == before[j].session_id@);
                            assert(after[k].session_id@ == before[k].session_id@);
                        }
                    }
                    let map = heartbeats(before).insert(id, now);
                    assert forall|j: int| #![trigger after[j]] 0 <= j < after.len() implies
                        map.contains_key(after[j].session_id@) && map[after[j].session_id@]
                            == after[j].last_seen by {
                        assert(before[j].session_id@ == after[j].session_id@);
                        if j != i {
                            assert(before[j].session_id@ != before[i as int].session_id@);
                        }
                    }
                    assert forall|other: Seq<char>| #[trigger]
                        map.contains_key(other) implies exists|j: int|
                        0 <= j < after.len() && (#[trigger] after[j]).session_id@ == other by {
                        if other == id {
                            assert(after[i as int].session_id@ == other);
                        } else {
                            assert(heartbeats(before).contains_key(other));
                            let j = choose|j: int|
                                0 <= j < before.len() && (#[trigger] before[j]).session_id@
                                    == other;
                            assert(after[j].session_id@ == other);
                        }
                    }
                    lemma_same_heartbeats(after, map);
                }
            },
            None => {
                self.entries.push(Viewer { session_id, last_seen: now });
                proof {
                    let after = self.entries@;
                    assert(after.drop_last() =~= before);
                    assert forall|j: int, k: int| 0 <= j < k < after.len() implies (
                    #[trigger] after[j]).session_id@ != (#[trigger] after[k]).session_id@ by {
                        assert(after[j] == before[j]);
                        if k < before.len() {
                            assert(after[k] == before[k]);
                        } else {
                            assert(heartbeats(before).contains_key(before[j].session_id@));
                        }
                    }
                }
            },
        }
    }

    /// Forgets a viewer.
    pub fn remove(&mut self, session_id: &str)
        requires
            old(self).wf(),
        ensures
            final(self).wf(),
            final(self)@ == old(self)@.remove(session_id@),
    {
        match self.place(session_id) {
            Some(i) => {
                self.remove_place(i);
            },
            None => {
                assert(self@.remove(session_id@) =~= self@);
            },
        }
    }

    /// Forgets the viewer at a place of the list.
    fn remove_place(&mut self, i: usize)
        requires
            old(self).wf(),
            i < old(self).entries@.len(),
        ensures
            final(self).wf(),
            final(self).entries@ == old(self).entries@.remove(i as int),
            final(self)@ == old(self)@.remove(old(self).entries@[i as int].session_id@),
    {
        let ghost before = self.entries@;
        let _ = self.entries.remove(i);
        proof {
            lemma_heartbeats(before);
            let after = self.entries@;
            let id = before[i as int].session_id@;
            assert forall|j: int| 0 <= j < after.len() implies after[j] == before[if j < i {
                j
            } else {
                j + 1
            }] by {}
            assert(distinct_viewers(after));
            let map = heartbeats(before).remove(id);
            assert forall|j: int| #![trigger after[j]] 0 <= j < after.len() implies
                map.contains_key(after[j].session_id@) && map[after[j].session_id@]
                    == after[j].last_seen by {
                let k = if j < i {
                    j
                } else {
                    j + 1
                };
                assert(after[j] == before[k]);
                assert(before[k].session_id@ != before[i as int].session_id@);
            }
            assert forall|other: Seq<char>| #[trigger] map.contains_key(other) implies exists|
                j: int,
            | 0 <= j < after.len() && (#[trigger] after[j]).session_id@ == other by {
                assert(heartbeats(before).contains_key(other));
                let k = choose|k: int|
                    0 <= k < before.len() && (#[trigger] before[k]).session_id@ == other;
                let j = if k < i {
                    k
                } else {
                    k - 1
                };
                assert(after[j].session_id@ == other);
            }
            lemma_same_heartbeats(after, map);
        }
    }
}

/// Whether a heartbeat still counts: through the last nanosecond of the viewer's time.
pub open spec fn still_active(last_seen: Moment, now: Moment) -> bool {
    elapsed(last_seen, now) <= seconds(VIEWER_TTL_SECONDS as int)
}

/// The viewers whose heartbeat still counts.
pub open spec fn active_at(viewers: Map<Seq<char>, Moment>, now: Moment) -> Map<Seq<char>, Moment> {
    Map::new(
        |id: Seq<char>| viewers.contains_key(id) && still_active(viewers[id], now),
        |id: Seq<char>| viewers[id],
    )
}

/// Forgets the viewers whose heartbeat no longer counts.
pub fn prune_inactive_viewers(viewers: &mut Viewers, now: Moment)
    requires
        old(viewers).wf(),
    ensures
        final(viewers).wf(),
        final(viewers)@ == active_at(old(viewers)@, now),
{
    let ttl = VIEWER_TTL_SECONDS as u128 * NANOS_PER_SECOND;
    let mut i: usize = 0;
    while i < viewers.entries.len()
        invariant
            viewers.wf(),
            ttl == seconds(VIEWER_TTL_SECONDS as int),
            i <= viewers.entries@.len(),
            active_at(viewers@, now) == active_at(old(viewers)@, now),
            forall|j: int|
                0 <= j < i ==> still_active((#[trigger] viewers.entries@[j]).last_seen, now),
        decreases viewers.entries@.len() - i,
    {
        if now.since(viewers.entries[i].last_seen) <= ttl {
            i += 1;
        } else {
            let ghost before = *viewers;
            viewers.remove_place(i);
            proof {
                lemma_heartbeats(before.entries@);
                assert(active_at(viewers@, now) =~= active_at(before@, now));
                assert forall|j: int| 0 <= j < i implies still_active(
                    (#[trigger] viewers.entries@[j]).last_seen,
                    now,
                ) by {
                    assert(viewers.entries@[j] == before.entries@[j]);
                }
            }
        }
    }
    proof {
        lemma_heartbeats(viewers.entries@);
        assert(active_at(viewers@, now) =~= viewers@) by {
            assert forall|id: Seq<char>| viewers@.contains_key(id) implies still_active(
                viewers@[id],
                now,
            ) by {
                let j = choose|j: int|
                    0 <= j < viewers.entries@.len() && (
                    #[trigger] viewers.entries@[j]).session_id@ == id;
                assert(still_active(viewers.entries@[j].last_seen, now));
            }
        }
    }
}

/// What became of an announcement.
#[derive(Clone, Copy, Debug, PartialEq, Eq, Structural)]
pub struct PresenceUpdate {
    pub active_viewers: usize,
    /// Whether the announcement was accepted.
    pub admitted: bool,
}

/// Whether there is room for an announcement: only a new viewer needs room.
pub open spec fn admits(
    viewers: Map<Seq<char>, Moment>,
    session_id: Seq<char>,
    active: bool,
    max_viewers: nat,
) -> bool {
    !active || viewers.contains_key(session_id) || viewers.dom().len() < max_viewers
}

/// The viewers after an announcement.
pub open spec fn after_announcement(
    viewers: Map<Seq<char>, Moment>,
    session_id: Seq<char>,
    active: bool,
    now: Moment,
    max_viewers: nat,
) -> Map<Seq<char>, Moment> {
    let present = active_at(viewers, now);
    if !admits(present, session_id, active, max_viewers) {
        present
    } else if active {
        present.insert(session_id, now)
    } else {
        present.remove(session_id)
    }
}

/// Whether an announcement is an activation: that of the first active viewer.
pub open spec fn activates(
    viewers: Map<Seq<char>, Moment>,
    session_id: Seq<char>,
    active: bool,
    now: Moment,
    max_viewers: nat,
) -> bool {
    active && active_at(viewers, now).dom().len() == 0 && max_viewers > 0
}

/// Takes in an announcement. Expired viewers are forgotten first; the first active viewer counts
/// as an activation.
pub fn apply_presence_update(
    viewers: &mut Viewers,
    generation: &mut u64,
    payload: PresencePayload,
    now: Moment,
    max_viewers: usize,
) -> (update: PresenceUpdate)
    requires
        old(viewers).wf(),
    ensures
        final(viewers).wf(),
        final(viewers)@ == after_announcement(
            old(viewers)@,
            payload.session_id@,
            payload.active,
            now,
            max_viewers as nat,
        ),
        final(viewers)@.dom().finite(),
        update.active_viewers == final(viewers)@.dom().len(),
        update.admitted == admits(
            active_at(old(viewers)@, now),
            payload.session_id@,
            payload.active,
            max_viewers as nat,
        ),
        *final(generation) == if activates(
            old(viewers)@,
            payload.session_id@,
            payload.active,
            now,
            max_viewers as nat,
        ) {
            next_generation(*old(generation))
        } else {
            *old(generation)
        },
{
    prune_inactive_viewers(viewers, now);
    let count = viewers.len();
    if !payload.active {
        viewers.remove(payload.session_id.as_str());
        return PresenceUpdate { active_viewers: viewers.len(), admitted: true };
    }
    if count >= max_viewers && !viewers.contains_key(payload.session_id.as_str()) {
        return PresenceUpdate { active_viewers: count, admitted: false };
    }
    proof {
        if count == 0 && viewers@.contains_key(payload.session_id@) {
            assert(viewers@.dom().contains(payload.session_id@));
            assert(viewers@.dom() =~= Set::<Seq<char>>::empty());
        }
    }
    viewers.insert(payload.session_id, now);
    if count == 0 {
        *generation = generation.wrapping_add(1);
    }
    PresenceUpdate { active_viewers: viewers.len(), admitted: true }
}

/// The number of the next activation; numbers start over after the last one.
pub open spec fn next_generation(generation: u64) -> u64 {
    if generation == u64::MAX {
        0
    } else {
        (generation + 1) as u64
    }
}

/// Forgets expired viewers and counts the others.
pub fn active_viewer_count(viewers: &mut Viewers, now: Moment) -> (count: usize)
    requires
        old(viewers).wf(),
    ensures
        final(viewers).wf(),
        final(viewers)@ == active_at(old(viewers)@, now),
        final(viewers)@.dom().finite(),
        count == final(viewers)@.dom().len(),
{
    prune_inactive_viewers(viewers, now);
    viewers.len()
}

/// The age of a snapshot in seconds. A snapshot ahead of the clock is of unknown age, so that it
/// does not hold back refreshes for ever.
pub fn snapshot_age_seconds(snapshot: &SnapshotRecord, now: i64) -> (age: Option<i64>)
    ensures
        age == age_at(Some(snapshot.fetched_at_unix), now),
{
    observation_age(Some(snapshot.fetched_at_unix), now)
}

/// Why a refresh is not due, if it is not: nobody watches, or the latest snapshot is younger than
/// the refresh interval.
pub open spec fn skip_reason(active_viewers: nat, snapshot_age: Option<i64>) -> Option<Seq<char>> {
    if active_viewers == 0 {
        Some(
            "Refresh skipped: no active viewers are currently tracked. Open the dashboard tab to resume updates."@,
        )
    } else {
        match snapshot_age {
            Some(age) => if age < REFRESH_INTERVAL_SECONDS {
                Some(
                    "Refresh skipped: latest snapshot is "@ + signed_decimal(age as int)
                        + "s old; minimum refresh interval is "@ + signed_decimal(
                        REFRESH_INTERVAL_SECONDS as int,
                    ) + "s."@,
                )
            } else {
                None
            },
            None => None,
        }
    }
}

/// Why a refresh is not due, if it is not.
pub fn refresh_skip_reason(active_viewers: usize, snapshot_age: Option<i64>) -> (reason: Option<
    String,
>)
    ensures
        optional_text(reason) == skip_reason(active_viewers as nat, snapshot_age),
{
    if active_viewers == 0 {
        return Some(
            "Refresh skipped: no active viewers are currently tracked. Open the dashboard tab to resume updates.".to_owned(),
        );
    }
    if let Some(age) = snapshot_age {
        if age < REFRESH_INTERVAL_SECONDS {
            let mut text = "Refresh skipped: latest snapshot is ".to_owned();
            append_signed(&mut text, age);
            text.append("s old; minimum refresh interval is ");
            append_signed(&mut text, REFRESH_INTERVAL_SECONDS);
            text.append("s.");
            return Some(text);
        }
    }
    None
}

/// Whether a text can be a session identifier.
pub open spec fn valid_session_id(session_id: Seq<char>) -> bool {
    0 < session_id.len() <= SESSION_ID_BYTES && plain_chars(session_id)
}

/// Whether a text can be a session identifier: letters, digits, dashes and underscores, at least
/// one and not too many.
pub fn is_valid_session_id(session_id: &str) -> (valid: bool)
    ensures
        valid == valid_session_id(session_id@),
{
    if !only_plain_chars(session_id) {
        return false;
    }
    proof {
        assert(is_ascii_chars(session_id@)) by {
            assert forall|i: int| 0 <= i < session_id@.len() implies '\0'
                <= #[trigger] session_id@[i] <= '\u{7f}' by {
                assert(plain_char(session_id@[i]));
            }
        }
        is_ascii_chars_encode_utf8(session_id@);
    }
    let bytes = session_id.as_bytes().len();
    0 < bytes && bytes <= SESSION_ID_BYTES
}

/// A viewer counts through the last nanosecond of its time after a heartbeat, and not longer.
pub proof fn law_viewers_expire_after_their_time(
    viewers: Map<Seq<char>, Moment>,
    session_id: Seq<char>,
    heartbeat: Moment,
    now: Moment,
)
    requires
        heartbeat.nanos <= now.nanos,
    ensures
        active_at(viewers.insert(session_id, heartbeat), now).contains_key(session_id)
            <==> now.nanos - heartbeat.nanos <= seconds(VIEWER_TTL_SECONDS as int),
{
}

/// No announcement takes the number of viewers over the limit, where it was not over it before.
pub proof fn law_viewers_stay_within_the_limit(
    viewers: Map<Seq<char>, Moment>,
    session_id: Seq<char>,
    active: bool,
    now: Moment,
    max_viewers: nat,
)
    requires
        viewers.dom().finite(),
        viewers.dom().len() <= max_viewers,
    ensures
        after_announcement(viewers, session_id, active, now, max_viewers).dom().finite(),
        after_announcement(viewers, session_id, active, now, max_viewers).dom().len()
            <= max_viewers,
{
    let present = active_at(viewers, now);
    assert(present.dom().subset_of(viewers.dom()));
    vstd::set_lib::lemma_len_subset(present.dom(), viewers.dom());
    if present.contains_key(session_id) {
        assert(present.insert(session_id, now).dom() =~= present.dom());
    }
}

/// A refused announcement leaves every active viewer as it was and activates nothing.
pub proof fn law_refusal_changes_nobody(
    viewers: Map<Seq<char>, Moment>,
    session_id: Seq<char>,
    active: bool,
    now: Moment,
    max_viewers: nat,
)
    requires
        !admits(active_at(viewers, now), session_id, active, max_viewers),
    ensures
        after_announcement(viewers, session_id, active, now, max_viewers) == active_at(
            viewers,
            now,
        ),
        !activates(viewers, session_id, active, now, max_viewers),
{
}

/// At the limit, an active viewer's heartbeat and any viewer's leave are still accepted.
pub proof fn law_limit_binds_new_viewers_only(
    viewers: Map<Seq<char>, Moment>,
    session_id: Seq<char>,
    active: bool,
    now: Moment,
    max_viewers: nat,
)
    requires
        active_at(viewers, now).contains_key(session_id) || !active,
    ensures
        admits(active_at(viewers, now), session_id, active, max_viewers),
        after_announcement(viewers, session_id, active, now, max_viewers).contains_key(session_id)
            <==> active,
{
}

/// While a viewer is active, no announcement is an activation.
pub proof fn law_only_the_first_viewer_activates(
    viewers: Map<Seq<char>, Moment>,
    session_id: Seq<char>,
    other: Seq<char>,
    now: Moment,
    max_viewers: nat,
)
    requires
        viewers.dom().finite(),
        active_at(viewers, now).contains_key(other),
    ensures
        !activates(viewers, session_id, true, now, max_viewers),
{
    let present = active_at(viewers, now);
    assert(present.dom().subset_of(viewers.dom()));
    vstd::set_lib::lemma_len_subset(present.dom(), viewers.dom());
    assert(present.dom().contains(other));
}

/// A refresh is held back where nobody watches, or where the latest snapshot is under ten seconds
/// old; a snapshot of any other age, or of unknown age, holds back nothing.
pub proof fn law_only_young_snapshots_hold_back_refreshes(
    active_viewers: nat,
    snapshot_age: Option<i64>,
)
    ensures
        skip_reason(active_viewers, snapshot_age) is Some <==> active_viewers == 0 || (
        snapshot_age is Some && snapshot_age->0 < 10),
        active_viewers == 0 ==> skip_reason(active_viewers, snapshot_age) == Some(
            "Refresh skipped: no active viewers are currently tracked. Open the dashboard tab to resume updates."@,
        ),
        active_viewers > 0 && snapshot_age is Some && snapshot_age->0 < 10 ==> skip_reason(
            active_viewers,
            snapshot_age,
        ) == Some(
            "Refresh skipped: latest snapshot is "@ + signed_decimal(snapshot_age->0 as int)
                + "s old; minimum refresh interval is "@ + signed_decimal(10) + "s."@,
        ),
{
}

/// The viewers that count are those whose heartbeat is at most fifteen seconds ago, or ahead of the
/// clock, each with its own heartbeat.
pub proof fn law_viewers_count_for_fifteen_seconds(
    viewers: Map<Seq<char>, Moment>,
    session_id: Seq<char>,
    now: Moment,
)
    ensures
        active_at(viewers, now).contains_key(session_id) <==> viewers.contains_key(session_id)
            && now.nanos <= viewers[session_id].nanos + 15_000_000_000,
        active_at(viewers, now).contains_key(session_id) ==> active_at(viewers, now)[session_id]
            == viewers[session_id],
{
}

/// An announcement concerns its own viewer only: every other one that still counts stays, with its
/// heartbeat, and no other one does.
pub proof fn law_announcements_concern_one_viewer(
    viewers: Map<Seq<char>, Moment>,
    session_id: Seq<char>,
    active: bool,
    now: Moment,
    max_viewers: nat,
    other: Seq<char>,
)
    requires
        other != session_id,
    ensures
        after_announcement(viewers, session_id, active, now, max_viewers).contains_key(other)
            <==> viewers.contains_key(other) && now.nanos <= viewers[other].nanos
            + 15_000_000_000,
        after_announcement(viewers, session_id, active, now, max_viewers).contains_key(other)
            ==> after_announcement(viewers, session_id, active, now, max_viewers)[other]
            == viewers[other],
{
}

/// A viewer that announces itself counts from that moment on where it counted before or where fewer
/// than the limit count; else it does not, and the announcement is refused. One that leaves counts
/// no longer, and is never refused.
pub proof fn law_announced_viewers_count_where_there_is_room(
    viewers: Map<Seq<char>, Moment>,
    session_id: Seq<char>,
    active: bool,
    now: Moment,
    max_viewers: nat,
)
    ensures
        ({
            let counted = active_at(viewers, now);
            let after = after_announcement(viewers, session_id, active, now, max_viewers);
            let room = counted.contains_key(session_id) || counted.dom().len() < max_viewers;
            &&& admits(counted, session_id, active, max_viewers) <==> !active || room
            &&& after.contains_key(session_id) <==> active && room
            &&& after.contains_key(session_id) ==> after[session_id] == now
        }),
{
}

/// An announcement activates where nobody counted and its viewer counts behind it.
pub proof fn law_activation_is_the_first_arrival(
    viewers: Map<Seq<char>, Moment>,
    session_id: Seq<char>,
    active: bool,
    now: Moment,
    max_viewers: nat,
)
    requires
        viewers.dom().finite(),
    ensures
        activates(viewers, session_id, active, now, max_viewers) <==> {
            &&& forall|id: Seq<char>| #[trigger]
                viewers.contains_key(id) ==> now.nanos > viewers[id].nanos + 15_000_000_000
            &&& after_announcement(viewers, session_id, active, now, max_viewers).contains_key(
                session_id,
            )
        },
{
    let counted = active_at(viewers, now);
    assert(counted.dom().subset_of(viewers.dom()));
    vstd::set_lib::lemma_len_subset(counted.dom(), viewers.dom());
    if counted.dom().len() == 0 {
        assert(counted.dom() =~= Set::empty());
        assert forall|id: Seq<char>| #[trigger] viewers.contains_key(id) implies now.nanos
            > viewers[id].nanos + 15_000_000_000 by {
            assert(!counted.dom().contains(id));
        }
    } else {
        let id = counted.dom().choose();
        assert(counted.contains_key(id));
        assert(viewers.contains_key(id));
    }
    if forall|id: Seq<char>| #[trigger]
        viewers.contains_key(id) ==> now.nanos > viewers[id].nanos + 15_000_000_000 {
        assert(counted.dom() =~= Set::empty());
    }
}

/// Each activation has the number behind the one before; behind the last number comes 0.
pub proof fn law_activations_are_numbered_in_turn(generation: u64)
    ensures
        next_generation(generation) == (generation + 1) % 0x1_0000_0000_0000_0000,
        next_generation(generation) != generation,
{
}

/// A session identifier has 1 to 128 characters, all of them ASCII letters or digits, dashes or
/// underscores.
pub proof fn law_session_ids_are_short_and_plain(session_id: Seq<char>)
    ensures
        valid_session_id(session_id) <==> {
            &&& 1 <= session_id.len() <= 128
            &&& forall|i: int|
                #![trigger session_id[i]]
                0 <= i < session_id.len() ==> {
                    ||| '0' <= session_id[i] <= '9'
                    ||| 'A' <= session_id[i] <= 'Z'
                    ||| 'a' <= session_id[i] <= 'z'
                    ||| session_id[i] == '-'
                    ||| session_id[i] == '_'
                }
        },
{
    assert forall|i: int| #![trigger session_id[i]] 0 <= i < session_id.len() implies (plain_char(
        session_id[i],
    ) <==> {
        ||| '0' <= session_id[i] <= '9'
        ||| 'A' <= session_id[i] <= 'Z'
        ||| 'a' <= session_id[i] <= 'z'
        ||| session_id[i] == '-'
        ||| session_id[i] == '_'
    }) by {}
}

} // verus!
