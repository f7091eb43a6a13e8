use hijuepapus_bot::clock::{Moment, Span, SECOND};
use hijuepapus_bot::monitor::{
    chronicle_due, classify, deploy_round_hours, BackupEvent, BackupWatch, Damper, DamperSignal,
    Escalation, ServerState,
};

fn after(t: Moment, secs: u64) -> Moment {
    Moment { nanos: t.nanos + secs * SECOND }
}

#[test]
fn chronicle_due_only_whole_hours_from_two_up() {
    // Half-hour milestones (odd, or below the 2h floor) never fire the
    // chronicle, only the wheel.
    for hh in [0u32, 1, 2, 3] {
        assert!(!chronicle_due(hh), "half_hours={hh} should not be chronicle-due");
    }
    // 2:00, 2:30 (wheel-only), 3:00, 3:30 (wheel-only), 4:00...
    assert!(chronicle_due(4)); // 2:00
    assert!(!chronicle_due(5)); // 2:30
    assert!(chronicle_due(6)); // 3:00
    assert!(!chronicle_due(7)); // 3:30
    assert!(chronicle_due(8)); // 4:00
}

#[test]
fn deploy_round_hours_uses_session_when_known_else_floor() {
    assert_eq!(deploy_round_hours(Some(5)), 5);
    assert_eq!(deploy_round_hours(Some(0)), 0);
    assert_eq!(deploy_round_hours(None), 2);
}

#[test]
fn classify_maps_observations() {
    assert_eq!(classify(None, false, None, false), ServerState::Down);
    assert_eq!(classify(None, true, Some("starting"), false), ServerState::Starting);
    assert_eq!(classify(None, true, Some("healthy"), true), ServerState::Up);
    assert_eq!(classify(None, true, Some("unhealthy"), true), ServerState::Unhealthy);
    // running, no healthcheck info, rcon answers: that's up
    assert_eq!(classify(None, true, None, true), ServerState::Up);
    // running but rcon dead and no health: still starting, not down
    assert_eq!(classify(None, true, None, false), ServerState::Starting);
}

#[test]
fn wedged_wins_over_running_flag() {
    // podman's own status pins the container as stuck mid-lifecycle
    // even when other signals disagree — including a `running: true`
    // that can briefly coexist with `status: "stopping"`.
    assert_eq!(classify(Some("stopping"), false, Some("healthy"), false), ServerState::Wedged);
    assert_eq!(classify(Some("stopping"), true, Some("healthy"), true), ServerState::Wedged);
    assert_eq!(classify(Some("removing"), true, None, true), ServerState::Wedged);
    assert_eq!(classify(Some("dead"), false, None, false), ServerState::Wedged);
    assert_eq!(classify(Some("paused"), true, Some("healthy"), true), ServerState::Wedged);
}

#[test]
fn classify_unknown_status_falls_through_to_old_behavior() {
    // Any status that isn't one of the wedge values must not change
    // the pre-existing classification logic at all.
    assert_eq!(classify(Some("running"), true, Some("healthy"), true), ServerState::Up);
    assert_eq!(classify(Some("restarting"), false, None, false), ServerState::Down);
    assert_eq!(classify(Some("created"), false, None, false), ServerState::Down);
    assert_eq!(classify(None, true, Some("starting"), false), ServerState::Starting);
}

#[test]
fn damper_requires_two_consecutive_readings() {
    let mut d = Damper::new(ServerState::Up);
    let t0 = Moment::from_secs(1_000);
    assert_eq!(d.observe(ServerState::Down, t0).transition, None); // first sighting
    assert_eq!(d.observe(ServerState::Down, t0).transition, Some(ServerState::Down)); // confirmed
    assert_eq!(d.observe(ServerState::Down, t0).transition, None); // no repeat notifications
}

#[test]
fn damper_resets_on_flap() {
    let mut d = Damper::new(ServerState::Up);
    let t0 = Moment::from_secs(1_000);
    assert_eq!(d.observe(ServerState::Down, t0).transition, None);
    assert_eq!(d.observe(ServerState::Up, t0).transition, None); // flap, no transition
    assert_eq!(d.observe(ServerState::Down, t0).transition, None); // counting restarts
    assert_eq!(d.observe(ServerState::Down, t0).transition, Some(ServerState::Down));
}

/// Drives an alternating Down/Up flip-flop against a damper whose
/// current state is Up: every "Up" reading returns to current and
/// discards the pending "Down", i.e. one flap reset per pair. This is
/// the crash-loop shape from the bug report: no two consecutive
/// readings ever match, so the plain transition damper never fires,
/// but the flap-reset count climbs steadily.
fn flap(d: &mut Damper, t0: Moment, count: u64) -> Vec<DamperSignal> {
    (0..count)
        .map(|i| {
            let s = if i % 2 == 0 { ServerState::Down } else { ServerState::Up };
            d.observe(s, after(t0, 30 * i))
        })
        .collect()
}

#[test]
fn instability_fires_once_after_four_resets_within_window() {
    let mut d = Damper::new(ServerState::Up);
    let t0 = Moment::from_secs(1_000);
    let signals = flap(&mut d, t0, 8); // resets at i=1,3,5,7 -> 30s,90s,150s,210s
    assert!(signals.iter().all(|s| s.transition.is_none()));
    let fired = signals.iter().filter(|s| s.instability).count();
    assert_eq!(fired, 1, "expected exactly one instability signal, got {signals:?}");
    assert!(signals.last().unwrap().instability, "the 4th reset should be the one that fires");
}

#[test]
fn three_resets_do_not_trigger_instability() {
    let mut d = Damper::new(ServerState::Up);
    let t0 = Moment::from_secs(1_000);
    let signals = flap(&mut d, t0, 6); // resets at i=1,3,5 -> only 3
    assert!(signals.iter().all(|s| !s.instability));
}

#[test]
fn resets_spread_beyond_five_minutes_do_not_trigger_instability() {
    let mut d = Damper::new(ServerState::Up);
    let t0 = Moment::from_secs(1_000);
    // Four resets, but 200s apart: each new one prunes anything older
    // than the 5-minute window before counting, so it never reaches 4.
    let offsets = [0u64, 200, 400, 600, 800];
    let mut signals = Vec::new();
    for (i, &off) in offsets.iter().enumerate() {
        let now = after(t0, off);
        signals.push(d.observe(ServerState::Down, now));
        if i + 1 < offsets.len() {
            let next_now = after(t0, off + 1);
            signals.push(d.observe(ServerState::Up, next_now));
        }
    }
    assert!(signals.iter().all(|s| !s.instability), "{signals:?}");
}

#[test]
fn cooldown_suppresses_further_signals_for_fifteen_minutes() {
    let mut d = Damper::new(ServerState::Up);
    let t0 = Moment::from_secs(1_000);
    let first = flap(&mut d, t0, 8); // fires once at i=7 (t0+210s)
    assert_eq!(first.iter().filter(|s| s.instability).count(), 1);

    // Keep flapping hard, well inside the 15-minute cooldown: no
    // second signal, however many more resets pile up.
    let more: Vec<DamperSignal> = (8..24u64)
        .map(|i| {
            let s = if i % 2 == 0 { ServerState::Down } else { ServerState::Up };
            d.observe(s, after(t0, 30 * i))
        })
        .collect();
    assert!(more.iter().all(|s| !s.instability), "cooldown should hold: {more:?}");
}

#[test]
fn planned_quick_restart_stays_silent() {
    // Up -> one Down reading -> Up again: no transition (never
    // confirmed), and only a single flap reset, well under the
    // instability threshold.
    let mut d = Damper::new(ServerState::Up);
    let t0 = Moment::from_secs(1_000);
    let sig1 = d.observe(ServerState::Down, t0);
    assert_eq!(sig1.transition, None);
    assert!(!sig1.instability);
    let sig2 = d.observe(ServerState::Up, after(t0, 30));
    assert_eq!(sig2.transition, None);
    assert!(!sig2.instability);
}

#[test]
fn no_escalation_while_up() {
    let mut d = Damper::new(ServerState::Up);
    let t0 = Moment::from_secs(1_000);
    for i in 0..20u64 {
        let sig = d.observe(ServerState::Up, after(t0, i * 600));
        assert_eq!(sig.escalation, None, "Up must never escalate, tick {i}");
    }
}

#[test]
fn escalates_after_five_minutes_down() {
    let mut d = Damper::new(ServerState::Up);
    let t0 = Moment::from_secs(1_000);
    // Confirm the transition to Down (two consecutive readings).
    assert_eq!(d.observe(ServerState::Down, t0).transition, None);
    let confirmed = d.observe(ServerState::Down, after(t0, 30));
    assert_eq!(confirmed.transition, Some(ServerState::Down));
    assert_eq!(confirmed.escalation, None, "no escalation on the transition tick itself");

    let just_under = after(t0, 30 + 299);
    assert_eq!(d.observe(ServerState::Down, just_under).escalation, None);

    let at_five_minutes = after(t0, 30 + 300);
    let sig = d.observe(ServerState::Down, at_five_minutes);
    assert_eq!(
        sig.escalation,
        Some(Escalation { state: ServerState::Down, elapsed: Span::from_secs(300) })
    );
}

#[test]
fn escalation_ladder_backs_off_5_15_30_60_then_hourly() {
    let mut d = Damper::new(ServerState::Down);
    let t0 = Moment::from_secs(1_000);
    // Damper starts already-Down (as monitor::run constructs it);
    // this first observe seeds state_since at t0.
    assert_eq!(d.observe(ServerState::Down, t0).transition, None);

    let ladder_minutes = [5u64, 15, 30, 60, 120, 180, 240];
    for m in ladder_minutes {
        let sig = d.observe(ServerState::Down, after(t0, m * 60));
        assert_eq!(
            sig.escalation.map(|e| e.elapsed),
            Some(Span::from_secs(m * 60)),
            "expected an escalation exactly at minute {m}"
        );
    }
}

#[test]
fn escalation_counter_resets_after_recovery() {
    let mut d = Damper::new(ServerState::Up);
    let t0 = Moment::from_secs(1_000);
    d.observe(ServerState::Down, t0);
    d.observe(ServerState::Down, after(t0, 30));
    let sig = d.observe(ServerState::Down, after(t0, 330));
    assert!(sig.escalation.is_some(), "first rung should have fired");

    // Recover: two confirmed Up readings clear escalations_sent.
    d.observe(ServerState::Up, after(t0, 400));
    let recovered = d.observe(ServerState::Up, after(t0, 430));
    assert_eq!(recovered.transition, Some(ServerState::Up));

    // Go down again: the ladder must restart at 5 minutes from THIS
    // transition, not continue from wherever the old counter left off.
    let t1 = after(t0, 1000);
    d.observe(ServerState::Down, t1);
    let confirmed = d.observe(ServerState::Down, after(t1, 30));
    assert_eq!(confirmed.transition, Some(ServerState::Down));

    let just_under = after(t1, 30 + 299);
    assert_eq!(d.observe(ServerState::Down, just_under).escalation, None);

    let at_five_minutes = after(t1, 30 + 300);
    assert!(d.observe(ServerState::Down, at_five_minutes).escalation.is_some());
}

#[test]
fn wedged_and_down_both_escalate() {
    let mut d = Damper::new(ServerState::Wedged);
    let t0 = Moment::from_secs(1_000);
    d.observe(ServerState::Wedged, t0); // seeds state_since
    let sig = d.observe(ServerState::Wedged, after(t0, 300));
    assert_eq!(
        sig.escalation,
        Some(Escalation { state: ServerState::Wedged, elapsed: Span::from_secs(300) })
    );
}

#[test]
fn backup_watch_fires_once_per_run_end() {
    let mut w = BackupWatch::default();
    assert_eq!(w.observe(true, None), None); // started
    assert_eq!(w.observe(false, Some(1)), Some(BackupEvent::Failed(1)));
    assert_eq!(w.observe(false, Some(1)), None); // no repeat
    assert_eq!(w.observe(true, None), None);
    assert_eq!(w.observe(false, Some(0)), Some(BackupEvent::Succeeded));
}
