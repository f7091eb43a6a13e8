use hijuepapus_bot::chronicle::{session_message, SessionTracker};
use hijuepapus_bot::clock::{Moment, Span, SECOND};
use hijuepapus_bot::docker::ContainerStatus;
use hijuepapus_bot::fortuna::{spin_with, EntropyRolls};
use hijuepapus_bot::monitor::{
    escalation_threshold, BackupWatch, Damper, Escalation, ServerState,
};
use hijuepapus_bot::watch::{
    backup_failed_message, escalation_message, spin_wheel_for, transition_message, Notice, Turn,
    Watch, DEPLOY_ROUND, DOWN, UNSTABLE, UP,
};

fn at(secs: u64) -> Moment {
    Moment::from_secs(secs)
}

fn mc(running: bool, status: Option<&str>, health: Option<&str>) -> Option<ContainerStatus> {
    Some(ContainerStatus {
        running,
        health: health.map(|s| s.to_string()),
        started_at: None,
        exit_code: None,
        status: status.map(|s| s.to_string()),
    })
}

#[test]
fn pages_come_after_these_times() {
    let minutes = [5u64, 15, 30, 60, 120, 180];
    for (sent, m) in minutes.iter().enumerate() {
        assert_eq!(escalation_threshold(sent), Span::from_secs(m * 60));
    }
    assert_eq!(
        escalation_threshold(usize::MAX).nanos,
        (1 + (usize::MAX as u128 - 3)) * 3600 * SECOND as u128
    );
}

#[test]
fn one_page_at_a_time_however_late() {
    let mut d = Damper::new(ServerState::Down);
    d.observe(ServerState::Down, at(0));
    let late = d.observe(ServerState::Down, at(10_000));
    assert_eq!(late.escalation.unwrap().elapsed, Span::from_secs(10_000));
    assert!(d.observe(ServerState::Down, at(10_001)).escalation.is_some());
}

#[test]
fn a_clock_that_goes_back_does_not_page() {
    let mut d = Damper::new(ServerState::Down);
    d.observe(ServerState::Down, at(1_000));
    assert_eq!(d.observe(ServerState::Down, at(10)).escalation, None);
}

#[test]
fn instability_is_signalled_again_after_the_cooldown() {
    let mut d = Damper::new(ServerState::Up);
    let mut fired = Vec::new();
    for i in 0..80u64 {
        let s = if i % 2 == 0 { ServerState::Down } else { ServerState::Up };
        if d.observe(s, at(30 * i)).instability {
            fired.push(30 * i);
        }
    }
    assert_eq!(fired[0], 210);
    assert!(fired.len() > 1 && fired.windows(2).all(|w| w[1] - w[0] >= 900), "{fired:?}");
}

#[test]
fn resets_during_the_cooldown_are_tracked_in_silence() {
    let (down, up) = (ServerState::Down, ServerState::Up);
    let mut d = Damper::new(up);
    let earlier = [
        (down, 0),
        (up, 30),
        (down, 60),
        (up, 90),
        (down, 120),
        (up, 150),
        (down, 180),
        (up, 210),
        (down, 960),
        (up, 990),
        (down, 1020),
        (up, 1050),
        (down, 1080),
        (up, 1100),
        (down, 1105),
    ];
    for (state, secs) in earlier {
        assert_eq!(d.observe(state, at(secs)).instability, secs == 210, "{secs}");
    }
    assert!(d.observe(up, at(1111)).instability);
    // Counting starts over.
    assert!(!d.observe(down, at(2020)).instability);
    assert!(!d.observe(up, at(2030)).instability);
}

#[test]
fn many_resets_during_the_cooldown_are_signalled_once_after_it() {
    let mut d = Damper::new(ServerState::Up);
    let mut fired = Vec::new();
    for i in 0..130u64 {
        let s = if i % 2 == 0 { ServerState::Down } else { ServerState::Up };
        if d.observe(s, at(10 * i)).instability {
            fired.push(10 * i);
        }
    }
    // The fourth reset, and the first one after the cooldown.
    assert_eq!(fired, vec![70, 970]);
}

#[test]
fn a_backup_without_an_exit_code_is_not_reported() {
    let mut w = BackupWatch::default();
    assert_eq!(w.observe(false, Some(1)), None);
    assert_eq!(w.observe(true, Some(1)), None);
    assert_eq!(w.observe(false, None), None);
    assert_eq!(w.observe(false, Some(1)), None);
}

#[test]
fn announcements_name_everyone_once() {
    let names: Vec<String> = ["a", "b", "a"].iter().map(|s| s.to_string()).collect();
    let mut t = SessionTracker::default();
    assert!(t.observe(&names, at(0)).is_empty());
    assert_eq!(t.current_hours(&"b".to_string(), at(7_199)), Some(1));
    assert_eq!(t.current_hours(&"c".to_string(), at(7_199)), None);
    let anns = t.observe(&names, at(4 * 3600));
    let told: Vec<(&str, u32)> = anns.iter().map(|a| (a.player.as_str(), a.hours)).collect();
    assert_eq!(told, vec![("a", 4), ("b", 4)]);
}

#[test]
fn session_messages_fill_in_name_and_hours() {
    assert_eq!(
        session_message("juan", 12),
        ":rotating_light: 12 horas cumplidas. A este ritmo, **juan** logrará el récord que ningún \
         hidalgo de la Mancha quiso jamás."
    );
    for name in ["{hours}", "{player}", "}{", ""] {
        assert!(session_message(name, 123).contains("123"));
    }
    assert_eq!(
        session_message("juan", 0),
        ":hourglass_flowing_sand: ¡Dos horas cumplidas! **juan** cabalga sin desmontar por la \
         ínsula, y hasta el cronista de esta historia alza la pluma en señal de admiración."
    );
}

#[test]
fn words_about_the_server_in_full() {
    assert_eq!(transition_message(ServerState::Up, Some("running")), UP);
    assert_eq!(transition_message(ServerState::Down, None), DOWN);
    assert!(transition_message(ServerState::Starting, None).starts_with(":yellow_circle:"));
    assert!(transition_message(ServerState::Unhealthy, None).starts_with(":orange_circle:"));
    assert!(transition_message(ServerState::Wedged, Some("dead")).contains("estado 'dead': ni /start"));
    assert!(transition_message(ServerState::Wedged, None).contains("'desconocido'"));

    let elapsed = Span { nanos: (5 * 60 + 59) * SECOND as u128 };
    assert_eq!(
        escalation_message(Escalation { state: ServerState::Down, elapsed }, None, 42),
        "<@&42> :rotating_light: La ínsula lleva 5 minutos sin levantarse (Down). Acuda alguien \
         del consejo a mirar los logs; este hidalgo no callará mientras dure la caída."
    );
    assert_eq!(
        escalation_message(
            Escalation { state: ServerState::Wedged, elapsed },
            Some("stopping"),
            42
        ),
        "<@&42> :rotating_light: La ínsula sigue TRABADA hace 5 minutos (podman: estado \
         'stopping'). Ni /start ni /restart la remedian; el vigía del castillo obrará, mas acuda \
         vuestra merced si tarda."
    );
    assert_eq!(
        backup_failed_message(-2),
        ":rotating_light: ¡La encomienda de respaldo ha FRACASADO con código -2! Acuda vuestra merced presto."
    );
}

#[test]
fn the_watch_reports_a_recovery_once() {
    let mut w = Watch::new(false);
    let up = mc(true, Some("running"), Some("healthy"));
    assert!(w.observe_server(&up, true, at(0), 42).is_empty());
    assert_eq!(w.observe_server(&up, true, at(30), 42), vec![Notice::Say(UP.to_string())]);
    for i in 2..20 {
        assert!(w.observe_server(&up, true, at(30 * i), 42).is_empty());
    }
}

#[test]
fn the_watch_pages_for_as_long_as_the_server_is_down() {
    let mut w = Watch::new(false);
    let mut pages = Vec::new();
    for i in 0..=130u64 {
        for notice in w.observe_server(&None, false, at(60 * i), 42) {
            match notice {
                Notice::Page(text) => pages.push((i, text)),
                Notice::Say(text) => panic!("said {text}"),
            }
        }
    }
    let when: Vec<u64> = pages.iter().map(|p| p.0).collect();
    assert_eq!(when, vec![5, 15, 30, 60, 120]);
    assert!(pages[4].1.starts_with("<@&42> ") && pages[4].1.contains(" 120 minutos "));
}

#[test]
fn the_watch_tells_of_a_crash_loop() {
    let mut w = Watch::new(false);
    let up = mc(true, None, Some("healthy"));
    let down = mc(false, Some("exited"), None);
    w.observe_server(&up, true, at(0), 42);
    w.observe_server(&up, true, at(30), 42);
    let mut said = Vec::new();
    for i in 2..10u64 {
        let reading = if i % 2 == 0 { &down } else { &up };
        said.extend(w.observe_server(reading, i % 2 == 1, at(30 * i), 42));
    }
    assert_eq!(said, vec![Notice::Say(UNSTABLE.to_string())]);
}

#[test]
fn the_watch_tells_of_failed_backups_only() {
    let mut w = Watch::new(false);
    assert_eq!(w.observe_backup(true, None), None);
    assert_eq!(w.observe_backup(false, Some(0)), None);
    assert_eq!(w.observe_backup(true, None), None);
    assert_eq!(w.observe_backup(false, Some(3)), Some(backup_failed_message(3)));
    assert_eq!(w.observe_backup(false, Some(3)), None);
}

#[test]
fn a_new_build_spins_for_everyone_once() {
    let reply = "There are 2 of a max of 8 players online: ana, bob";
    let mut w = Watch::new(true);
    assert_eq!(
        w.observe_players(Some(reply), at(0)),
        vec![
            Turn::Say(DEPLOY_ROUND.to_string()),
            Turn::Spin { player: "ana".into(), hours: 2 },
            Turn::Spin { player: "bob".into(), hours: 2 },
        ]
    );
    assert!(w.observe_players(Some(reply), at(30)).is_empty());

    // Nobody online at the first round: the round is over all the same.
    let mut w = Watch::new(true);
    assert!(w.observe_players(None, at(0)).is_empty());
    assert!(w.observe_players(Some(reply), at(30)).is_empty());
}

#[test]
fn milestones_are_told_and_then_spun() {
    let reply = "There are 1 of a max of 8 players online: ana";
    let mut w = Watch::new(false);
    assert!(w.observe_players(Some(reply), at(0)).is_empty());
    assert!(w.observe_players(Some(reply), at(3 * 1800)).is_empty());
    assert_eq!(
        w.observe_players(Some(reply), at(2 * 3600)),
        vec![
            Turn::Say(session_message("ana", 2)),
            Turn::Spin { player: "ana".into(), hours: 2 },
        ]
    );
    // One lost reply is forgiven, two are not.
    assert!(w.observe_players(None, at(2 * 3600 + 30)).is_empty());
    assert_eq!(w.observe_players(Some(reply), at(3 * 3600)).len(), 2);
    assert!(w.observe_players(None, at(3 * 3600 + 30)).is_empty());
    assert!(w.observe_players(Some("nonsense"), at(3 * 3600 + 60)).is_empty());
    assert!(w.observe_players(Some(reply), at(4 * 3600)).is_empty());
}

#[test]
fn the_watch_proclaims_each_deed_once() {
    let mut w = Watch::new(false);
    let line = "[12:34:56] [Server thread/INFO]: Juan has made the advancement [Stone Age]";
    assert_eq!(w.observe_log(line).len(), 1);
    assert!(w.observe_log(&format!("{line}\n{line}")).is_empty());
}

#[test]
fn the_wheel_does_not_turn_for_selectors() {
    assert!(spin_wheel_for("@a", 2, &mut EntropyRolls::seeded(1, 0)).is_none());
    let mut zero = || 0;
    assert_eq!(spin_wheel_for("Juan", 9, &mut zero), Some(spin_with("Juan", 9, 0, 0, 0)));
}
