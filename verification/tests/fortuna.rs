use hijuepapus_bot::fortuna::{
    category_for_roll, spin, spin_forced, valid_player_name, weights_for, Category, EntropyRolls,
    RollSource, BLESSING_POOL, COMMANDS, EFFECTS, MEDIUM_CURSE_POOL, MINOR_CURSE_POOL,
    SEVERE_CURSE_POOL,
};

use std::collections::HashSet;

fn fixed(seq: Vec<u32>) -> impl FnMut() -> u32 {
    let mut it = seq.into_iter();
    move || it.next().unwrap_or(0)
}

// 1. Weights sum to 100 for hours 0..=100.
#[test]
fn weights_always_sum_to_100() {
    for h in 0..=100u32 {
        let w = weights_for(h);
        assert_eq!(w.iter().sum::<u32>(), 100, "hours={h} weights={w:?}");
    }
}

// 2. Total-curse and severe monotonicity across 2..=8.
#[test]
fn curse_and_severe_weight_are_monotonically_nondecreasing() {
    let mut prev_curse = 0u32;
    let mut prev_severe = 0u32;
    for h in 2..=8u32 {
        let w = weights_for(h);
        let curse = w[1] + w[2] + w[3];
        let severe = w[3];
        assert!(curse >= prev_curse, "curse weight dropped at hour {h}: {w:?}");
        assert!(severe >= prev_severe, "severe weight dropped at hour {h}: {w:?}");
        prev_curse = curse;
        prev_severe = severe;
    }
}

// 3. Blessing >= 60 at h<=2, <= 5 at h>=8.
#[test]
fn blessing_weight_bounds_at_the_extremes() {
    for h in 0..=2u32 {
        assert!(weights_for(h)[0] >= 60, "hour {h}: {:?}", weights_for(h));
    }
    for h in 8..=100u32 {
        assert!(weights_for(h)[0] <= 5, "hour {h}: {:?}", weights_for(h));
    }
}

// 4. Category boundary rolls at h=2, plus u32::MAX.
#[test]
fn category_boundaries_at_two_hours() {
    let w = weights_for(2); // [70, 20, 8, 2]
    assert_eq!(category_for_roll(w, 69), Category::Blessing);
    assert_eq!(category_for_roll(w, 70), Category::MinorCurse);
    assert_eq!(category_for_roll(w, 89), Category::MinorCurse);
    assert_eq!(category_for_roll(w, 90), Category::MediumCurse);
    assert_eq!(category_for_roll(w, 97), Category::MediumCurse);
    assert_eq!(category_for_roll(w, 98), Category::SevereCurse);
    // Doesn't panic on an extreme roll, and resolves to something.
    let _ = category_for_roll(w, u32::MAX);
}

// 5. spin never panics across hours 0..=100 with adversarial roll
// streams, and leaves no {player}/{deed} residue.
#[test]
fn spin_never_panics_and_leaves_no_placeholder_residue() {
    let streams: Vec<Vec<u32>> = vec![
        vec![0, 0, 0],
        vec![u32::MAX, u32::MAX, u32::MAX],
        vec![1, u32::MAX, 0],
        vec![99, 3, 2],
        vec![u32::MAX / 2, 17, 255],
    ];
    for h in 0..=100u32 {
        for s in &streams {
            let mut rng = fixed(s.clone());
            let spin = spin("Juan", h, &mut rng);
            assert!(!spin.discord_msg.contains("{player}"));
            assert!(!spin.discord_msg.contains("{deed}"));
            assert!(!spin.game_msg.contains("{player}"));
            assert!(!spin.game_msg.contains("{deed}"));
            for c in &spin.commands {
                assert!(!c.contains("{player}"));
            }
        }
    }
}

// 6. Determinism with fixed rolls.
#[test]
fn spin_is_deterministic_given_fixed_rolls() {
    let mut rng1 = fixed(vec![10, 1, 2]);
    let mut rng2 = fixed(vec![10, 1, 2]);
    let a = spin("Juan", 4, &mut rng1);
    let b = spin("Juan", 4, &mut rng2);
    assert_eq!(a, b);
}

// 7. Golden command strings per effect id via spin_forced (player Juan).
#[test]
fn golden_command_strings_per_effect_id() {
    let cases: &[(&str, &[&str])] = &[
        ("pan", &["give Juan minecraft:bread 3"]),
        ("carne", &["give Juan minecraft:cooked_beef 2"]),
        ("zanahoria_dorada", &["give Juan minecraft:golden_carrot 2"]),
        ("xp_menor", &["xp add Juan 2 levels"]),
        ("xp_mayor", &["xp add Juan 5 levels"]),
        ("velocidad", &["effect give Juan minecraft:speed 120"]),
        ("prisa", &["effect give Juan minecraft:haste 120"]),
        ("regeneracion", &["effect give Juan minecraft:regeneration 30"]),
        ("antorchas", &["give Juan minecraft:torch 16"]),
        ("flechas", &["give Juan minecraft:arrow 16"]),
        (
            "disco_de_oro",
            &["give Juan minecraft:music_disc_cat[minecraft:jukebox_playable={song:\"main:golden\"}]"],
        ),
        ("hambre", &["effect give Juan minecraft:hunger 30"]),
        ("lentitud", &["effect give Juan minecraft:slowness 30"]),
        ("ceguera", &["effect give Juan minecraft:blindness 20"]),
        ("zombi", &["execute at Juan run summon minecraft:zombie ~ ~ ~"]),
        ("veneno", &["effect give Juan minecraft:poison 15"]),
        ("fatiga", &["effect give Juan minecraft:mining_fatigue 60"]),
        (
            "cuadrilla",
            &[
                "execute at Juan run summon minecraft:zombie ~ ~ ~",
                "execute at Juan run summon minecraft:zombie ~ ~ ~",
                "execute at Juan run summon minecraft:skeleton ~ ~ ~",
            ],
        ),
        ("levitacion", &["effect give Juan minecraft:levitation 3 0"]),
        ("marchitez", &["effect give Juan minecraft:wither 10 1"]),
        ("rayo", &["execute at Juan run summon minecraft:lightning_bolt ~ ~ ~"]),
        (
            "jauria",
            &[
                "execute at Juan run summon minecraft:zombie ~ ~ ~",
                "execute at Juan run summon minecraft:zombie ~ ~ ~",
                "execute at Juan run summon minecraft:skeleton ~ ~ ~",
                "execute at Juan run summon minecraft:skeleton ~ ~ ~",
                "execute at Juan run summon minecraft:spider ~ ~ ~",
            ],
        ),
        ("ascension", &["effect give Juan minecraft:levitation 5 3"]),
    ];
    assert_eq!(cases.len(), 23, "golden test must cover all 23 effects");
    for (id, expected) in cases {
        let mut rng = fixed(vec![0]);
        let spin = spin_forced("Juan", id, &mut rng).unwrap_or_else(|| panic!("unknown id {id}"));
        assert_eq!(&spin.commands, expected, "effect {id}");
        assert_eq!(spin.effect_id, *id);
    }
}

// 8. Forbidden-substring sweep.
#[test]
fn no_effect_touches_blocks_inventory_or_world_destructively() {
    let forbidden = ["tnt", "creeper", "setblock", "fill", "clear", "kill"];
    for (id, _, _) in EFFECTS {
        let commands: Vec<&str> =
            COMMANDS.iter().filter(|(owner, _)| *owner == id).map(|(_, c)| *c).collect();
        assert!(!commands.is_empty(), "effect {id} does nothing");
        for c in commands {
            let lower = c.to_lowercase();
            for f in forbidden {
                assert!(!lower.contains(f), "effect {} command {:?} contains forbidden substring {f}", id, c);
            }
            assert!(
                c.starts_with("give ")
                    || c.starts_with("effect give ")
                    || c.starts_with("xp add ")
                    || c.starts_with("execute at "),
                "effect {} command {:?} has an unexpected prefix",
                id,
                c
            );
        }
    }
}

// 9. Pools non-empty/unique, ids unique.
#[test]
fn fortuna_narration_pools_are_nonempty_and_unique() {
    for pool in [BLESSING_POOL, MINOR_CURSE_POOL, MEDIUM_CURSE_POOL, SEVERE_CURSE_POOL] {
        assert!(pool.len() >= 4, "pool too small: {pool:?}");
        assert!(pool.iter().all(|s| !s.is_empty()));
        let unique: HashSet<_> = pool.iter().collect();
        assert_eq!(unique.len(), pool.len(), "duplicate entries in pool: {pool:?}");
    }
}

#[test]
fn effect_ids_are_unique_and_cover_all_categories() {
    assert_eq!(EFFECTS.len(), 23);
    let ids: HashSet<&str> = EFFECTS.iter().map(|e| e.0).collect();
    assert_eq!(ids.len(), 23, "duplicate effect ids");
    assert_eq!(EFFECTS.iter().filter(|e| e.1 == Category::Blessing).count(), 11);
    assert_eq!(EFFECTS.iter().filter(|e| e.1 == Category::MinorCurse).count(), 4);
    assert_eq!(EFFECTS.iter().filter(|e| e.1 == Category::MediumCurse).count(), 4);
    assert_eq!(EFFECTS.iter().filter(|e| e.1 == Category::SevereCurse).count(), 4);
}

// 10. valid_player_name accept/reject matrix.
#[test]
fn valid_player_name_accept_reject_matrix() {
    assert!(valid_player_name("Juan"));
    assert!(valid_player_name("a"));
    assert!(valid_player_name("CamRG121"));
    assert!(valid_player_name("a_b_c_1234567_9")); // 16 chars
    assert!(!valid_player_name(""));
    assert!(!valid_player_name("this_name_is_seventeen")); // > 16
    assert!(!valid_player_name("@a"));
    assert!(!valid_player_name("@p[distance=..5]"));
    assert!(!valid_player_name("Juan Perez")); // space
    assert!(!valid_player_name("Juan;kill"));
    assert!(!valid_player_name("Ju\u{e1}n")); // accented, not ASCII alnum
}

// 11. spin_forced unknown id -> None.
#[test]
fn spin_forced_unknown_id_is_none() {
    let mut rng = fixed(vec![0]);
    assert!(spin_forced("Juan", "no_existe", &mut rng).is_none());
}

// 12. Two EntropyRolls instances diverge.
#[test]
fn two_entropy_rolls_instances_diverge() {
    let mut a = EntropyRolls::new();
    let mut b = EntropyRolls::new();
    let seq_a: Vec<u32> = (0..4).map(|_| a.roll()).collect();
    let seq_b: Vec<u32> = (0..4).map(|_| b.roll()).collect();
    assert_ne!(seq_a, seq_b, "two independently-seeded instances produced identical streams");
}

#[test]
fn category_for_roll_never_panics_across_all_weight_tables() {
    for h in 0..=100u32 {
        let w = weights_for(h);
        for r in [0u32, 1, 50, 98, 99, 100, 1000, u32::MAX] {
            let _ = category_for_roll(w, r);
        }
    }
}
