use bitcoin_price_tracker::clock::Moment;
use bitcoin_price_tracker::config::VIEWER_TTL_SECONDS;
use bitcoin_price_tracker::handlers::update_presence;
use bitcoin_price_tracker::models::{PresencePayload, SnapshotRecord};
use bitcoin_price_tracker::presence::{
    active_viewer_count, apply_presence_update, is_valid_session_id, prune_inactive_viewers,
    refresh_skip_reason, snapshot_age_seconds, Viewers,
};

const SECOND: u128 = 1_000_000_000;

fn at(seconds: u128) -> Moment {
    Moment { nanos: seconds * SECOND }
}

fn announce(id: &str, active: bool) -> PresencePayload {
    PresencePayload { session_id: id.to_string(), active }
}

fn snapshot_at(fetched_at_unix: i64) -> SnapshotRecord {
    SnapshotRecord {
        fetched_at_unix,
        sources: Vec::new(),
        average_price: None,
        spread: None,
        warnings: Vec::new(),
        refreshed_source: None,
    }
}

#[test]
fn session_ids_must_be_ascii_and_reasonable_length() {
    assert!(is_valid_session_id("viewer_123-abc"));
    assert!(!is_valid_session_id(""));
    assert!(!is_valid_session_id("contains space"));
    assert!(!is_valid_session_id(&"x".repeat(129)));
}

#[test]
fn session_id_edges() {
    assert!(is_valid_session_id(&"x".repeat(128)));
    assert!(is_valid_session_id("A"));
    assert!(is_valid_session_id("-_"));
    assert!(is_valid_session_id("azAZ09"));
    assert!(!is_valid_session_id("caf\u{e9}"));
    assert!(!is_valid_session_id("a.b"));
    assert!(!is_valid_session_id("a/b"));
    assert!(!is_valid_session_id("a\n"));
}

#[test]
fn refresh_is_skipped_when_snapshot_is_too_recent() {
    let reason = refresh_skip_reason(1, Some(4));
    assert!(reason.is_some());
}

#[test]
fn skip_reasons_are_worded_exactly() {
    assert_eq!(
        refresh_skip_reason(0, None).as_deref(),
        Some("Refresh skipped: no active viewers are currently tracked. Open the dashboard tab to resume updates.")
    );
    assert_eq!(
        refresh_skip_reason(3, Some(9)).as_deref(),
        Some("Refresh skipped: latest snapshot is 9s old; minimum refresh interval is 10s.")
    );
    assert_eq!(
        refresh_skip_reason(3, Some(-12)).as_deref(),
        Some("Refresh skipped: latest snapshot is -12s old; minimum refresh interval is 10s.")
    );
    assert_eq!(refresh_skip_reason(1, Some(10)), None);
    assert_eq!(refresh_skip_reason(1, None), None);
    assert!(refresh_skip_reason(0, Some(100)).is_some());
}

#[test]
fn inactive_viewers_are_pruned() {
    let now = at(1_000);
    let mut viewers = Viewers::new();
    viewers.insert("active".to_string(), now);
    viewers.insert(
        "stale".to_string(),
        Moment { nanos: now.nanos - (VIEWER_TTL_SECONDS as u128 + 1) * SECOND },
    );

    prune_inactive_viewers(&mut viewers, now);

    assert!(viewers.contains_key("active"));
    assert!(!viewers.contains_key("stale"));
}

#[test]
fn viewers_count_through_the_last_nanosecond_of_their_time() {
    let mut viewers = Viewers::new();
    viewers.insert("one".to_string(), at(100));
    assert_eq!(active_viewer_count(&mut viewers, at(115)), 1);
    assert_eq!(active_viewer_count(&mut viewers, Moment { nanos: 115 * SECOND + 1 }), 0);
    assert_eq!(viewers.len(), 0);
}

#[test]
fn heartbeats_from_the_future_count() {
    let mut viewers = Viewers::new();
    viewers.insert("one".to_string(), at(100));
    assert_eq!(active_viewer_count(&mut viewers, at(50)), 1);
}

#[test]
fn pruning_keeps_every_active_viewer() {
    let mut viewers = Viewers::new();
    for (id, time) in [("a", 100), ("b", 80), ("c", 99), ("d", 70), ("e", 85), ("f", 60)] {
        viewers.insert(id.to_string(), at(time));
    }
    prune_inactive_viewers(&mut viewers, at(100));
    assert_eq!(viewers.len(), 3);
    for id in ["a", "c", "e"] {
        assert!(viewers.contains_key(id));
    }
    for id in ["b", "d", "f"] {
        assert!(!viewers.contains_key(id));
    }
}

#[test]
fn a_second_heartbeat_replaces_the_first() {
    let mut viewers = Viewers::new();
    viewers.insert("one".to_string(), at(1));
    viewers.insert("two".to_string(), at(2));
    viewers.insert("one".to_string(), at(14));
    assert_eq!(viewers.len(), 2);
    prune_inactive_viewers(&mut viewers, at(18));
    assert_eq!(viewers.len(), 1);
    assert!(viewers.contains_key("one"));
    viewers.remove("absent");
    assert_eq!(viewers.len(), 1);
    viewers.remove("one");
    assert_eq!(viewers.len(), 0);
}

#[test]
fn first_active_viewer_marks_full_refresh_pending() {
    let mut viewers = Viewers::new();
    let mut generation = 0;
    let update =
        apply_presence_update(&mut viewers, &mut generation, announce("viewer-1", true), at(1), 1000);
    assert_eq!(update.active_viewers, 1);
    assert!(update.admitted);
    assert_eq!(generation, 1);
}

#[test]
fn only_the_first_viewer_activates() {
    let mut viewers = Viewers::new();
    let mut generation = 0;
    apply_presence_update(&mut viewers, &mut generation, announce("one", true), at(1), 1000);
    apply_presence_update(&mut viewers, &mut generation, announce("one", true), at(2), 1000);
    apply_presence_update(&mut viewers, &mut generation, announce("two", true), at(3), 1000);
    assert_eq!(generation, 1);
    apply_presence_update(&mut viewers, &mut generation, announce("one", false), at(4), 1000);
    apply_presence_update(&mut viewers, &mut generation, announce("two", false), at(4), 1000);
    assert_eq!(generation, 1);
    assert_eq!(viewers.len(), 0);
    apply_presence_update(&mut viewers, &mut generation, announce("two", true), at(5), 1000);
    assert_eq!(generation, 2);
    apply_presence_update(&mut viewers, &mut generation, announce("two", true), at(21), 1000);
    assert_eq!(generation, 3);
}

#[test]
fn activations_start_over_after_the_last_number() {
    let mut viewers = Viewers::new();
    let mut generation = u64::MAX;
    apply_presence_update(&mut viewers, &mut generation, announce("one", true), at(1), 1000);
    assert_eq!(generation, 0);
}

#[test]
fn viewer_cap_preserves_existing_heartbeats_removal_and_expiry() {
    let mut viewers = Viewers::new();
    let mut generation = 0;
    let max = 2;
    for id in ["one", "two"] {
        let reply = update_presence(&mut viewers, &mut generation, announce(id, true), at(0), max);
        assert_eq!(reply.status, 200);
    }
    let reply = update_presence(&mut viewers, &mut generation, announce("three", true), at(0), max);
    assert_eq!(reply.status, 429);
    assert_eq!(reply.body.active_viewers, 2);
    assert!(reply.body.error.as_deref().unwrap().contains("capacity"));
    assert_eq!(reply.retry_after_seconds, Some(15));
    for (id, active) in [("one", true), ("two", false), ("three", true)] {
        let reply = update_presence(&mut viewers, &mut generation, announce(id, active), at(0), max);
        assert_eq!(reply.status, 200);
        assert_eq!(reply.retry_after_seconds, None);
    }
    let reply = update_presence(&mut viewers, &mut generation, announce("four", true), at(16), max);
    assert_eq!(reply.status, 200);
    assert_eq!(viewers.len(), 1);
    assert!(viewers.contains_key("four"));
    assert_eq!(generation, 2);
}

#[test]
fn invalid_identifiers_change_nothing() {
    let mut viewers = Viewers::new();
    let mut generation = 7;
    viewers.insert("stale".to_string(), at(0));
    let reply = update_presence(&mut viewers, &mut generation, announce("a b", true), at(100), 10);
    assert_eq!(reply.status, 400);
    assert_eq!(reply.body.active_viewers, 0);
    assert_eq!(reply.body.error, None);
    assert_eq!(generation, 7);
    assert!(viewers.contains_key("stale"));
}

#[test]
fn snapshot_ages() {
    assert_eq!(snapshot_age_seconds(&snapshot_at(100), 107), Some(7));
    assert_eq!(snapshot_age_seconds(&snapshot_at(100), 100), Some(0));
    assert_eq!(snapshot_age_seconds(&snapshot_at(100), 99), None);
    assert_eq!(snapshot_age_seconds(&snapshot_at(i64::MIN), i64::MAX), None);
}
