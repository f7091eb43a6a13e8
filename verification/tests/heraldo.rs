use hijuepapus_bot::heraldo::{
    narrate, parse_deed_line, Deed, DeedKind, Herald, ADVANCEMENT_POOL, CHALLENGE_POOL, GOAL_POOL,
};
use std::collections::HashSet;

#[test]
fn parses_advancement_line() {
    let d = parse_deed_line("[12:34:56] [Server thread/INFO]: Juan has made the advancement [Stone Age]").unwrap();
    assert_eq!(d, Deed { player: "Juan".into(), kind: DeedKind::Advancement, name: "Stone Age".into() });
}

#[test]
fn parses_challenge_line() {
    let d = parse_deed_line("[12:34:56] [Server thread/INFO]: Juan has completed the challenge [Cover Me in Debris]").unwrap();
    assert_eq!(d, Deed { player: "Juan".into(), kind: DeedKind::Challenge, name: "Cover Me in Debris".into() });
}

#[test]
fn parses_goal_line() {
    let d = parse_deed_line("[12:34:56] [Server thread/INFO]: Juan has reached the goal [Sky's the Limit]").unwrap();
    assert_eq!(d, Deed { player: "Juan".into(), kind: DeedKind::Goal, name: "Sky's the Limit".into() });
}

#[test]
fn rejects_chat_line_impersonating_an_advancement() {
    // Real player chat is rendered with angle brackets around the
    // author; a player literally typing "Juan has made the
    // advancement [fake]" in chat must never be mistaken for the real
    // server-generated line.
    assert!(parse_deed_line(
        "[12:34:56] [Server thread/INFO]: <Juan> has made the advancement [fake]"
    )
    .is_none());
}

#[test]
fn rejects_unrelated_log_lines() {
    assert!(parse_deed_line("[12:34:56] [Server thread/INFO]: Juan joined the game").is_none());
    assert!(parse_deed_line("Done (12.345s)! For help, type \"help\"").is_none());
}

#[test]
fn heraldo_narration_pools_are_nonempty_and_unique() {
    let pools: [&[&str]; 3] = [&ADVANCEMENT_POOL, &GOAL_POOL, &CHALLENGE_POOL];
    for pool in pools {
        assert!(pool.len() >= 4, "pool too small: {pool:?}");
        assert!(pool.iter().all(|s| !s.is_empty()));
        let unique: HashSet<_> = pool.iter().collect();
        assert_eq!(unique.len(), pool.len(), "duplicate entries: {pool:?}");
    }
    assert!(CHALLENGE_POOL.len() >= 4);
}

#[test]
fn narrate_interpolates_player_and_name_and_never_panics() {
    let deeds = [
        Deed { player: "Juan".into(), kind: DeedKind::Advancement, name: "Stone Age".into() },
        Deed { player: "Ana".into(), kind: DeedKind::Goal, name: "Sky's the Limit".into() },
        Deed { player: "Bob".into(), kind: DeedKind::Challenge, name: "Cover Me in Debris".into() },
        Deed { player: "".into(), kind: DeedKind::Challenge, name: "".into() },
    ];
    for d in deeds {
        let msg = narrate(&d);
        assert!(!msg.contains("{player}") && !msg.contains("{name}"));
        if !d.player.is_empty() {
            assert!(msg.contains(&d.player));
        }
    }
}

#[test]
fn narrate_selection_varies_across_inputs() {
    // Sanity check the hash-based picker doesn't degenerate to always
    // choosing the same template.
    let names = ["Stone Age", "Cover Me in Debris", "Sky's the Limit", "Diamonds!", "We Need to Go Deeper"];
    let msgs: HashSet<String> = names
        .iter()
        .map(|n| narrate(&Deed { player: "Juan".into(), kind: DeedKind::Advancement, name: (*n).into() }))
        .collect();
    assert!(msgs.len() > 1, "expected variety, got a single repeated template");
}

#[test]
fn herald_never_reannounces_the_same_line_twice() {
    let mut h = Herald::new();
    let log = "[12:34:56] [Server thread/INFO]: Juan has made the advancement [Stone Age]\n[12:35:00] [Server thread/INFO]: Juan joined the game\n[12:36:00] [Server thread/INFO]: Ana has reached the goal [Sky's the Limit]\n";
    let first = h.process(log);
    assert_eq!(first.len(), 2);

    // Next tick re-fetches an overlapping tail (same two deed lines
    // plus one genuinely new one).
    let overlapping = "[12:34:56] [Server thread/INFO]: Juan has made the advancement [Stone Age]\n[12:36:00] [Server thread/INFO]: Ana has reached the goal [Sky's the Limit]\n[12:37:00] [Server thread/INFO]: Juan has completed the challenge [Cover Me in Debris]\n";
    let second = h.process(overlapping);
    assert_eq!(second.len(), 1);
    assert!(second[0].contains("Juan"));
}
