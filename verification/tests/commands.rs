use hijuepapus_bot::commands::{
    easywhitelist_fallback, pobre_message, quixotify_whitelist, state_line, POBRE_POOL,
};

#[test]
fn state_line_distinguishes_stopped_from_wedged() {

    let stopped = state_line(Some("exited"), Some(0));
    assert!(stopped.contains("dormida"), "{stopped}");
    assert!(!stopped.contains("TRABADA") && !stopped.contains("Trabada"), "{stopped}");

    for wedged_status in ["stopping", "removing", "dead", "paused"] {
        let wedged = state_line(Some(wedged_status), None);
        assert!(wedged.contains("Trabada"), "{wedged}");
        assert!(wedged.contains(wedged_status), "podman's own state should be named: {wedged}");
        assert!(!wedged.contains("dormida"), "wedge must not read as a clean stop: {wedged}");
        assert!(wedged.contains("/start") && wedged.contains("/restart"));
    }

    let unknown = state_line(None, None);
    assert!(unknown.contains("dormida"), "{unknown}");
}

#[test]
fn pauper_proclamations_name_the_pauper_and_vary() {
    for name in ["Bispannus", "x", "CamRG121", "unnombrelargo16"] {
        let m = pobre_message(name);
        assert!(m.contains(name), "missing name: {m}");
        assert!(!m.contains("{name}"), "placeholder left: {m}");
    }
    assert!(POBRE_POOL.len() >= 3);
    let mut sorted: Vec<&str> = POBRE_POOL.to_vec();
    sorted.sort_unstable();
    sorted.dedup();
    assert_eq!(sorted.len(), POBRE_POOL.len(), "duplicate pauper lines");
    // different name lengths reach different lines
    assert_ne!(pobre_message("ab"), pobre_message("abc"));
}

#[test]
fn falls_back_to_easywhitelist_for_add_and_remove() {
    assert_eq!(
        easywhitelist_fallback("whitelist add Bispannus").as_deref(),
        Some("easywhitelist add Bispannus")
    );
    assert_eq!(
        easywhitelist_fallback("whitelist remove Bispannus").as_deref(),
        Some("easywhitelist remove Bispannus")
    );
}

#[test]
fn no_fallback_for_list_or_foreign_commands() {
    assert!(easywhitelist_fallback("whitelist list").is_none());
    assert!(easywhitelist_fallback("say hola").is_none());
    assert!(easywhitelist_fallback("whitelist").is_none());
}

#[test]
fn knights_added_players_by_name() {
    let m = quixotify_whitelist("Added CamRG121 to the whitelist");
    assert!(m.contains("CamRG121") && m.contains("caballero"));
}

#[test]
fn banishes_removed_players_by_name() {
    let m = quixotify_whitelist("Removed CamRG121 from the whitelist");
    assert!(m.contains("CamRG121") && m.contains("desterrado"));
}

#[test]
fn classifies_the_known_refusals() {
    assert!(quixotify_whitelist("Player is already whitelisted").contains("antaño"));
    assert!(quixotify_whitelist("Player is not whitelisted").contains("nunca moró"));
    assert!(quixotify_whitelist("That player does not exist").contains("Mojang"));
}

#[test]
fn renders_the_roll_with_names() {
    let m = quixotify_whitelist("There are 2 whitelisted player(s): alice, bob");
    assert!(m.contains("rollo") && m.contains("alice, bob"));
}

#[test]
fn empty_roll_and_unknown_responses_stay_informative() {
    assert!(quixotify_whitelist("There are no whitelisted players").contains("virgen"));
    let unknown = quixotify_whitelist("Some new server response");
    assert!(unknown.contains("Some new server response"));
}
