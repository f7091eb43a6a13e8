use hijuepapus_bot::chronicle::{
    session_message, Announcement, SessionTracker, TIER_2H, TIER_3H, TIER_4H, TIER_5H, TIER_6H,
    TIER_7H, TIER_8H, TIER_ROAST,
};
use hijuepapus_bot::clock::{Moment, SECOND};

fn after(t: Moment, secs: u64) -> Moment {
    Moment { nanos: t.nanos + secs * SECOND }
}

fn names(v: &[&str]) -> Vec<String> {
    v.iter().map(|s| s.to_string()).collect()
}

#[test]
fn no_announcement_before_two_hours() {
    let mut t = SessionTracker::default();
    let t0 = Moment::from_secs(1_000);
    assert_eq!(t.observe(&names(&["juan"]), t0), vec![]);
    assert_eq!(
        t.observe(&names(&["juan"]), after(t0, 3600 * 2 - 1)),
        vec![]
    );
}

#[test]
fn announces_once_at_two_hour_threshold() {
    let mut t = SessionTracker::default();
    let t0 = Moment::from_secs(1_000);
    t.observe(&names(&["juan"]), t0);
    let anns = t.observe(&names(&["juan"]), after(t0, 3600 * 2));
    assert_eq!(anns, vec![Announcement { player: "juan".into(), hours: 2 }]);
    // Same hour again: no repeat.
    let anns = t.observe(&names(&["juan"]), after(t0, 3600 * 2 + 60));
    assert_eq!(anns, vec![]);
}

#[test]
fn announces_each_additional_full_hour_exactly_once() {
    let mut t = SessionTracker::default();
    let t0 = Moment::from_secs(1_000);
    t.observe(&names(&["juan"]), t0);
    for h in 2..=5u64 {
        let anns = t.observe(&names(&["juan"]), after(t0, 3600 * h));
        assert_eq!(anns, vec![Announcement { player: "juan".into(), hours: h as u32 }]);
        // Poll again mid-hour: no duplicate.
        let anns = t.observe(&names(&["juan"]), after(t0, 3600 * h + 100));
        assert_eq!(anns, vec![]);
    }
}

#[test]
fn tolerates_one_missed_poll_without_resetting_clock() {
    let mut t = SessionTracker::default();
    let t0 = Moment::from_secs(1_000);
    t.observe(&names(&["juan"]), t0);
    // One poll where juan is absent (rcon hiccup / lag spike).
    assert_eq!(t.observe(&names(&[]), after(t0, 60)), vec![]);
    // Juan is back; the clock kept running from t0, so at t0+2h we
    // still cross the threshold rather than starting over.
    let anns = t.observe(&names(&["juan"]), after(t0, 3600 * 2));
    assert_eq!(anns, vec![Announcement { player: "juan".into(), hours: 2 }]);
}

#[test]
fn two_consecutive_misses_end_the_session() {
    let mut t = SessionTracker::default();
    let t0 = Moment::from_secs(1_000);
    t.observe(&names(&["juan"]), t0);
    t.observe(&names(&[]), after(t0, 30)); // miss 1: tolerated
    t.observe(&names(&[]), after(t0, 60)); // miss 2: session ends
    // Juan reappears well past the old t0 + 2h mark, but since the
    // session reset, this is a *new* session and shouldn't announce.
    let anns = t.observe(&names(&["juan"]), after(t0, 3600 * 3));
    assert_eq!(anns, vec![]);
}

#[test]
fn independent_players_tracked_separately() {
    let mut t = SessionTracker::default();
    let t0 = Moment::from_secs(1_000);
    t.observe(&names(&["juan"]), t0);
    // ana joins one poll later.
    t.observe(&names(&["juan", "ana"]), after(t0, 30));
    let anns = t.observe(&names(&["juan", "ana"]), after(t0, 3600 * 2 + 30));
    // juan started at t0, ana at t0+30s; both cross 2h in this same
    // poll (30s granularity doesn't push ana past the 2h boundary yet).
    let mut players: Vec<_> = anns.iter().map(|a| a.player.clone()).collect();
    players.sort();
    assert_eq!(players, vec!["ana".to_string(), "juan".to_string()]);
}

#[test]
fn session_pools_are_nonempty_and_unique() {
    let pools: [&[&str]; 8] = [
        &TIER_2H, &TIER_3H, &TIER_4H, &TIER_5H, &TIER_6H, &TIER_7H, &TIER_8H, &TIER_ROAST,
    ];
    for pool in pools {
        assert!(pool.len() >= 3, "pool too small: {pool:?}");
        assert!(pool.iter().all(|s| !s.is_empty()));
        let unique: std::collections::HashSet<_> = pool.iter().collect();
        assert_eq!(unique.len(), pool.len(), "duplicate entries in pool: {pool:?}");
    }
    assert!(TIER_ROAST.len() >= 5);
}

#[test]
fn session_message_is_deterministic() {
    assert_eq!(session_message("juan", 4), session_message("juan", 4));
    assert_eq!(session_message("ana", 9), session_message("ana", 9));
}

#[test]
fn session_message_distinct_across_hours_two_to_eight() {
    let msgs: Vec<String> = (2..=8).map(|h| session_message("juan", h)).collect();
    let unique: std::collections::HashSet<_> = msgs.iter().collect();
    assert_eq!(unique.len(), msgs.len(), "hours 2..=8 should never share a message: {msgs:?}");
}

#[test]
fn session_message_never_panics_and_is_nonempty() {
    for hours in 0..=50u32 {
        for player in ["", "a", "juan", "a-very-long-name-indeed"] {
            let msg = session_message(player, hours);
            assert!(!msg.is_empty());
            assert!(!msg.contains("{player}") && !msg.contains("{hours}"));
        }
    }
}

#[test]
fn roast_tier_includes_hour_number() {
    let msg = session_message("juan", 12);
    assert!(msg.contains("12"));
}
