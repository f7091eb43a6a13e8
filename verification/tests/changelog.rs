use hijuepapus_bot::changelog::{parse_build, render, short_sha, should_announce, MAX_SUBJECTS};

/// Encodes `(sha, subject)` pairs the same way `build.rs` would, for
/// feeding into `parse_build` in tests.
fn encode(pairs: &[(&str, &str)]) -> String {
    pairs
        .iter()
        .map(|(sha, subject)| format!("{sha}\u{1e}{subject}"))
        .collect::<Vec<_>>()
        .join("\u{1f}")
}

#[test]
fn parse_build_round_trips_normal_input() {
    let log = encode(&[("abc1234", "Fix the wobbly gate"), ("def5678", "Add new spell")]);
    let build = parse_build("abc1234", &log);
    assert_eq!(build.sha, "abc1234");
    assert_eq!(build.subjects, vec!["Fix the wobbly gate", "Add new spell"]);
}

#[test]
fn parse_build_tolerates_empty_log() {
    let build = parse_build("abc1234", "");
    assert_eq!(build.sha, "abc1234");
    assert!(build.subjects.is_empty());
}

#[test]
fn parse_build_tolerates_empty_sha() {
    let build = parse_build("", "abc1234\u{1e}Some subject");
    assert_eq!(build.sha, "");
    assert_eq!(build.subjects, vec!["Some subject"]);
}

#[test]
fn parse_build_tolerates_malformed_records() {
    // A record missing its \x1e separator: no panic, empty subject.
    let build = parse_build("abc1234", "abc1234");
    assert_eq!(build.subjects, vec![""]);

    // Empty records (leading/trailing/doubled \x1f) are skipped, not
    // turned into spurious empty entries.
    let log = format!("\u{1f}{}\u{1f}\u{1f}", encode(&[("abc1234", "Real subject")]));
    let build = parse_build("abc1234", &log);
    assert_eq!(build.subjects, vec!["Real subject"]);
}

#[test]
fn parse_build_never_panics_on_garbage() {
    for input in ["\u{1f}\u{1f}\u{1f}", "\u{1e}\u{1e}", "\u{1f}\u{1e}\u{1f}\u{1e}", "\0\0"] {
        let build = parse_build("x", input);
        // Just needs to not panic; content isn't meaningful here.
        let _ = render(&build, None);
    }
}

#[test]
fn should_announce_matrix() {
    assert!(should_announce("abc1234", None));
    assert!(!should_announce("abc1234", Some("abc1234")));
    assert!(should_announce("abc1234", Some("def5678")));
}

#[test]
fn render_includes_all_subjects_up_to_the_cap() {
    let pairs: Vec<(String, String)> = (0..5)
        .map(|i| (format!("sha{i}"), format!("Subject number {i}")))
        .collect();
    let encoded = encode(
        &pairs.iter().map(|(s, subj)| (s.as_str(), subj.as_str())).collect::<Vec<_>>(),
    );
    let build = parse_build("sha0", &encoded);
    let msg = render(&build, None);
    for (_, subject) in &pairs {
        assert!(msg.contains(subject), "missing subject in render: {subject}\n---\n{msg}");
    }
    assert!(!msg.contains("y algunas otras enmiendas menores"));
}

#[test]
fn render_truncates_past_the_cap_and_says_so() {
    let pairs: Vec<(String, String)> = (0..12)
        .map(|i| (format!("sha{i}"), format!("Subject number {i}")))
        .collect();
    let encoded = encode(
        &pairs.iter().map(|(s, subj)| (s.as_str(), subj.as_str())).collect::<Vec<_>>(),
    );
    let build = parse_build("sha0", &encoded);
    let msg = render(&build, None);
    for (_, subject) in pairs.iter().take(MAX_SUBJECTS) {
        assert!(msg.contains(subject), "missing shown subject: {subject}");
    }
    for (_, subject) in pairs.iter().skip(MAX_SUBJECTS) {
        assert!(!msg.contains(subject), "unexpectedly showed truncated subject: {subject}");
    }
    assert!(msg.contains("y algunas otras enmiendas menores"));
}

#[test]
fn render_only_shows_subjects_newer_than_last_announced() {
    // Newest first, as git log produces it.
    let pairs = [
        ("sha3", "Newest change"),
        ("sha2", "Middle change"),
        ("sha1", "Already announced change"),
        ("sha0", "Old change before that"),
    ];
    let encoded = encode(&pairs);
    let build = parse_build("sha3", &encoded);
    let msg = render(&build, Some("sha1"));
    assert!(msg.contains("Newest change"));
    assert!(msg.contains("Middle change"));
    assert!(!msg.contains("Already announced change"));
    assert!(!msg.contains("Old change before that"));
}

#[test]
fn render_falls_back_to_recent_when_last_announced_not_in_history() {
    let pairs = [("sha2", "Newest change"), ("sha1", "Middle change"), ("sha0", "Old change")];
    let encoded = encode(&pairs);
    let build = parse_build("sha2", &encoded);
    // "sha-from-ages-ago" fell out of the 12-commit window this build
    // carries; falls back to showing the most recent commits.
    let msg = render(&build, Some("sha-from-ages-ago"));
    assert!(msg.contains("Newest change"));
    assert!(msg.contains("Middle change"));
    assert!(msg.contains("Old change"));
}

#[test]
fn render_never_panics_and_leaves_no_placeholder_residue_on_empty_subjects() {
    let build = parse_build("abc1234", "");
    let msg = render(&build, None);
    assert!(!msg.contains('{') && !msg.contains('}'));
    assert!(msg.contains("abc1234"));

    let msg_with_prior = render(&build, Some("def5678"));
    assert!(!msg_with_prior.contains('{') && !msg_with_prior.contains('}'));
}

#[test]
fn short_sha_caps_at_seven_chars_but_keeps_shorter_values() {
    assert_eq!(short_sha("abc1234extra"), "abc1234");
    assert_eq!(short_sha("abc12"), "abc12");
    assert_eq!(short_sha("desconocido"), "descono");
    assert_eq!(short_sha(""), "");
}
