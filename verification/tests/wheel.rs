use hijuepapus_bot::fortuna::{
    build_spin, category_for_roll, clock_part, effect_named, pool_for, spin, spin_forced, spin_with,
    valid_player_name, weights_for, Category, EntropyRolls, RollSource, COMMANDS, EFFECTS,
};

#[test]
fn the_generator_is_splitmix64() {
    let mut g = EntropyRolls::seeded(0, 0);
    assert_eq!(g.next_u64(), 0xE220_A839_7B1D_CDAF);
    assert_eq!(g.next_u64(), 0x6E78_9E6A_A1B9_65F4);
    let mut again = EntropyRolls::seeded(7, 7);
    assert_eq!(again.roll(), 0xE220_A839);
}

#[test]
fn the_clock_gives_its_low_bits_to_the_seed() {
    assert_eq!(clock_part(None), 0);
    assert_eq!(clock_part(Some(u64::MAX as u128)), u64::MAX);
    assert_eq!(clock_part(Some((1u128 << 64) + 5)), 5);
    let (a, b) = (EntropyRolls::new().next_u64(), EntropyRolls::default().next_u64());
    assert_ne!(a, b);
}

#[test]
fn weights_in_full() {
    assert_eq!(weights_for(0), [70, 20, 8, 2]);
    assert_eq!(weights_for(2), [70, 20, 8, 2]);
    assert_eq!(weights_for(3), [55, 25, 15, 5]);
    assert_eq!(weights_for(4), [40, 30, 20, 10]);
    assert_eq!(weights_for(5), [30, 30, 25, 15]);
    assert_eq!(weights_for(6), [20, 30, 30, 20]);
    assert_eq!(weights_for(7), [12, 28, 32, 28]);
    assert_eq!(weights_for(8), [5, 20, 35, 40]);
    assert_eq!(weights_for(u32::MAX), [5, 20, 35, 40]);
}

#[test]
fn each_category_gets_its_weight() {
    for hours in 0..12 {
        let w = weights_for(hours);
        let mut count = [0u32; 4];
        for roll in 300..400 {
            count[category_for_roll(w, roll) as usize] += 1;
        }
        assert_eq!(count, w);
    }
}

#[test]
fn what_the_weights_leave_over_is_severe() {
    assert_eq!(category_for_roll([0, 0, 0, 0], 0), Category::SevereCurse);
    assert_eq!(category_for_roll([10, 10, 10, 10], 39), Category::SevereCurse);
    assert_eq!(category_for_roll([10, 10, 10, 10], 99), Category::SevereCurse);
    assert_eq!(category_for_roll([0, u32::MAX, u32::MAX, 0], 5), Category::MinorCurse);
}

#[test]
fn three_rolls_make_a_spin() {
    let rolls = [170u32, 5, 6];
    let mut k = 0;
    let mut rng = || {
        k += 1;
        rolls[k - 1]
    };
    let s = spin("Juan", 2, &mut rng);
    assert_eq!(k, 3);
    assert_eq!(s, spin_with("Juan", 2, 170, 5, 6));
    assert_eq!(s.category, Category::MinorCurse);
    assert_eq!(s.effect_id, "lentitud");
    assert_eq!(s.commands, vec!["effect give Juan minecraft:slowness 30"]);
    assert_eq!(
        s.discord_msg,
        ":cloud: La fortuna, traviesa, dispone que **Juan** nota las piernas de plomo por medio \
         minuto. Cosa de nada, ya lo dijo el refrán."
    );
    assert_eq!(
        s.game_msg,
        "La Rueda de la Fortuna gira para Juan: nota las piernas de plomo por medio minuto."
    );
}

#[test]
fn an_unknown_effect_takes_no_roll() {
    let mut k = 0;
    let mut rng = || {
        k += 1;
        0
    };
    assert!(spin_forced("Juan", "PAN", &mut rng).is_none());
    assert_eq!(k, 0);
    let mut k = 0;
    let mut rng = || {
        k += 1;
        3
    };
    let s = spin_forced("Juan", "rayo", &mut rng).unwrap();
    assert_eq!(k, 1);
    assert_eq!(s, build_spin("Juan", effect_named("rayo").unwrap(), 3));
    assert!(s.discord_msg.ends_with("Que sirva de escarmiento a los demás hidalgos."));
}

#[test]
fn every_effect_can_be_forced_by_its_own_id() {
    for (i, (id, category, deed)) in EFFECTS.iter().enumerate() {
        assert_eq!(effect_named(id), Some(i));
        let s = build_spin("a_B9", i, 0);
        assert_eq!((s.effect_id, s.category), (*id, *category));
        let own: Vec<String> = COMMANDS
            .iter()
            .filter(|(owner, _)| owner == id)
            .map(|(_, c)| c.replace("{player}", "a_B9"))
            .collect();
        assert!(!own.is_empty());
        assert_eq!(s.commands, own);
        assert!(s.discord_msg.contains(deed) && s.game_msg.contains(deed));
    }
    assert!(COMMANDS.iter().all(|(id, _)| effect_named(id).is_some()));
}

#[test]
fn every_order_begins_with_a_verb_and_the_player() {
    for i in 0..EFFECTS.len() {
        for c in build_spin("kill", i, 1).commands {
            assert!(
                ["give kill", "effect give kill", "xp add kill", "execute at kill"]
                    .iter()
                    .any(|v| c.starts_with(v)),
                "{c}"
            );
            assert!(!c.contains("{player}"));
        }
    }
}

#[test]
fn the_line_is_the_roll_modulo_four() {
    for (category, id) in [
        (Category::Blessing, "pan"),
        (Category::MinorCurse, "zombi"),
        (Category::MediumCurse, "veneno"),
        (Category::SevereCurse, "rayo"),
    ] {
        let lines = pool_for(category);
        let at = effect_named(id).unwrap();
        for roll in [0u32, 1, 2, 3, 4, u32::MAX] {
            let opening = lines[roll as usize % 4].split("{player}").next().unwrap();
            assert!(build_spin("x", at, roll).discord_msg.starts_with(opening));
        }
    }
}

#[test]
fn names_of_sixteen_letters_are_the_longest() {
    assert!(valid_player_name("abcdefghijklmnop"));
    assert!(!valid_player_name("abcdefghijklmnopq"));
    assert!(!valid_player_name("ＡＢＣ"));
    for c in ["@", "[", "`", "{", "/", ":", "\n", "-"] {
        assert!(!valid_player_name(&format!("a{c}b")));
    }
}

#[test]
fn no_spin_does_harm_of_its_own() {
    let words = ["tnt", "creeper", "setblock", "fill", "clear", "kill"];
    for hours in 0..12 {
        for a in 0..100 {
            for b in 0..11 {
                let s = spin_with("Dulcinea_1605", hours, a, b, a);
                assert!(!s.commands.is_empty());
                for c in &s.commands {
                    let low = c.to_lowercase();
                    assert!(words.iter().all(|w| !low.contains(w)), "{c}");
                    assert!(c.contains("Dulcinea_1605"));
                }
                for said in [&s.discord_msg, &s.game_msg] {
                    assert!(said.contains("Dulcinea_1605") && !said.contains('{'));
                }
            }
        }
    }
    // A name may hold such a word; that is the name's doing.
    assert!(spin_with("Killer", 2, 0, 0, 0).commands[0].to_lowercase().contains("kill"));
}
