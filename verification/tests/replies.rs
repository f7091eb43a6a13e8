use hijuepapus_bot::heraldo::{fnv1a, narrate, parse_deed_line, Deed, DeedKind, Herald};
use hijuepapus_bot::parse::{parse_list, parse_tps, strip_colors};

#[test]
fn colour_codes_go_and_everything_else_stays() {
    assert_eq!(strip_colors("§a20.0§r"), "20.0");
    assert_eq!(strip_colors("§§aX"), "§X");
    assert_eq!(strip_colors("§p§A§g"), "§p§A§g");
    assert_eq!(strip_colors("§k§o§f§0§9§r"), "");
    assert_eq!(strip_colors("end§"), "end§");
}

#[test]
fn player_lists_are_found_anywhere_in_the_reply() {
    let l = parse_list("[§ainfo§r] There are 02 of a max of 20 players online:\n \t ana ,, §bbob \nrest")
        .unwrap();
    assert_eq!((l.online, l.max), (2, 20));
    assert_eq!(l.names, vec!["ana", "bob"]);

    let bare = parse_list("There are 1 of a max of 8 players online juan").unwrap();
    assert_eq!(bare.names, vec!["juan"]);
}

#[test]
fn player_lists_that_do_not_count_are_refused() {
    assert!(parse_list("").is_none());
    assert!(parse_list("There are 3 of a max of players online: a").is_none());
    // More than 32 bits hold, and digits that are no ASCII digits.
    assert!(parse_list("There are 4294967296 of a max of 8 players online:").is_none());
    assert!(parse_list("There are ٣ of a max of 8 players online:").is_none());
    assert_eq!(
        parse_list("There are 4294967295 of a max of 8 players online:").unwrap().online,
        u32::MAX
    );
}

#[test]
fn tick_rates_keep_the_numerals_of_the_server() {
    let t = parse_tps("[⚡] TPS from last 5s, 10s, 1m, 5m, 15m: *20, 20.00, 7.5, 0.25, 19.91, 3").unwrap();
    assert_eq!(
        (t.last_5s, t.last_10s, t.last_1m, t.last_5m, t.last_15m),
        ("20".into(), "20.00".into(), "7.5".into(), "0.25".into(), "19.91".into())
    );
    assert!(t.catching_up);
}

#[test]
fn deeds_keep_what_the_line_says() {
    let deed = parse_deed_line(
        "[12:34:56] [Server thread/INFO]: a_Z9 has reached the goal [x] [y]]",
    )
    .unwrap();
    assert_eq!(deed, Deed { player: "a_Z9".into(), kind: DeedKind::Goal, name: "x] [y]".into() });

    // White space around the line does not count.
    assert!(parse_deed_line(" [12:34:56] [Server thread/INFO]: Juan has reached the goal [x]\r\n").is_some());
    // Digits of any script make a time stamp.
    assert!(parse_deed_line("[١٢:34:56] [Server thread/INFO]: Juan has reached the goal [x]").is_some());
}

#[test]
fn lines_that_are_almost_deeds_are_none() {
    for line in [
        "[1:34:56] [Server thread/INFO]: Juan has reached the goal [x]",
        "[12:34:56] [Worker/INFO]: Juan has reached the goal [x]",
        "[12:34:56] [Server thread/INFO]: Juan has reached the goal []",
        "[12:34:56] [Server thread/INFO]: Juan has reached the goal [x\ny]",
        "[12:34:56] [Server thread/INFO]: Juan has won the goal [x]",
        "[12:34:56] [Server thread/INFO]: seventeen_letters has reached the goal [x]",
        "[12:34:56] [Server thread/INFO]:  has reached the goal [x]",
        "x [12:34:56] [Server thread/INFO]: Juan has reached the goal [x]",
        "[12:34:56] [Server thread/INFO]: Juan has reached the goal [x].",
    ] {
        assert!(parse_deed_line(line).is_none(), "{line:?}");
    }
}

#[test]
fn the_hash_is_fnv_1a() {
    assert_eq!(fnv1a(""), 0x811c_9dc5);
    assert_eq!(fnv1a("a"), 0xe40c_292c);
    assert_eq!(fnv1a("foobar"), 0xbf9c_f968);
}

#[test]
fn narrations_are_chosen_by_the_deed_and_name_it() {
    let deed = |name: &str| Deed {
        player: "Juan".into(),
        kind: DeedKind::Challenge,
        name: name.into(),
    };
    for name in ["Cover Me in Debris", "Sky's the Limit", "{player}"] {
        let said = narrate(&deed(name));
        assert_eq!(said, narrate(&deed(name)));
        assert!(said.contains("Juan") && said.contains(name), "{said}");
    }
}

#[test]
fn the_herald_looks_past_surrounding_space() {
    let mut h = Herald::default();
    let line = "[12:34:56] [Server thread/INFO]: Juan has reached the goal [x]";
    let first = h.process(&format!("  {line}\r\nnoise\n{line}\n"));
    assert_eq!(first.len(), 1);
    assert!(h.process(line).is_empty());
    assert_eq!(h.process(&line.replace("56", "57")).len(), 1);
}
