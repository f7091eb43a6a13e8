use hijuepapus_bot::parse::{parse_list, parse_tps};

fn value(numeral: &str) -> f64 {
    numeral.parse().unwrap()
}

// As spark's StatisticFormatter and HealthModule write it.
const SPARK_TPS_RCON: &str = "[⚡] TPS from last 5s, 10s, 1m, 5m, 15m: [⚡]  20.0, *20.0, 19.98, 19.87, 19.91[⚡] [⚡] Tick durations (min/med/95%ile/max ms) from last 10s, 1m: [⚡]  2.5/3.2/5.1/21.5;  2.4/3.4/6.8/45.2[⚡] [⚡] CPU usage from last 10s, 1m, 15m: [⚡]     12%, 15%, 14%  (system)[⚡]     8%, 9%, 9%  (process)";

#[test]
fn parses_spark_tps_line() {
    let tps = parse_tps(SPARK_TPS_RCON).unwrap();
    assert_eq!(value(&tps.last_5s), 20.0);
    assert_eq!(value(&tps.last_10s), 20.0);
    assert_eq!(value(&tps.last_1m), 19.98);
    assert_eq!(value(&tps.last_15m), 19.91);
    assert!(tps.catching_up); // the *20.0
}

#[test]
fn tolerates_color_codes() {
    let painted = "[⚡] TPS from last 5s, 10s, 1m, 5m, 15m: §a20.0§r, §a19.99§r, 19.98, 19.87, 19.91";
    let tps = parse_tps(painted).unwrap();
    assert_eq!(value(&tps.last_10s), 19.99);
    assert!(!tps.catching_up);
}

#[test]
fn rejects_garbage() {
    assert!(parse_tps("Unknown command").is_none());
}

#[test]
fn rejects_truncated_tps_values() {
    let truncated = "[⚡] TPS from last 5s, 10s, 1m, 5m, 15m: [⚡]  20.0, 19.9[⚡] [⚡] Tick durations (min/med/95%ile/max ms) from last 10s, 1m: [⚡]  2.5/3.2/5.1/21.5;  2.4/3.4/6.8/45.2";
    assert!(parse_tps(truncated).is_none());
}

#[test]
fn parses_player_list() {
    let raw = "There are 3 of a max of 8 players online: alice, bob, carl";
    let l = parse_list(raw).unwrap();
    assert_eq!((l.online, l.max), (3, 8));
    assert_eq!(l.names, vec!["alice", "bob", "carl"]);
}

#[test]
fn parses_empty_list() {
    let l = parse_list("There are 0 of a max of 8 players online:").unwrap();
    assert_eq!(l.online, 0);
    assert!(l.names.is_empty());
}
