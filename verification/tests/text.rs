use hijuepapus_bot::clock::{Moment, Span};
use hijuepapus_bot::text::{
    after_first, between, has, is_white, join, numeral, numeral_signed, replace, rsplit_once,
    same, split_on, split_once, trimmed, trimmed_start, unsigned, without_prefix, without_suffix,
    NumberFault,
};

const SAMPLES: [&str; 12] = [
    "",
    " ",
    "a",
    "  a b  ",
    "\u{a0}\u{2003}ínsula\u{3000}\n",
    "aaaa",
    "abababa",
    ":::",
    "host:25575",
    "a\u{1f}b\u{1f}",
    "¡Dos horas! **{player}** {player}",
    "\u{85}\u{200b}x\u{200b}\u{85}",
];

#[test]
fn white_space_is_what_the_standard_library_says() {
    for u in 0..=0x10FFFFu32 {
        if let Some(c) = char::from_u32(u) {
            assert_eq!(is_white(c), c.is_whitespace(), "U+{u:04X}");
        }
    }
}

#[test]
fn string_operations_agree_with_the_standard_library() {
    for s in SAMPLES {
        assert_eq!(trimmed(s), s.trim());
        assert_eq!(trimmed_start(s), s.trim_start());
        for c in [':', 'a', '\u{1f}', ' '] {
            assert_eq!(split_on(s, c), s.split(c).collect::<Vec<_>>());
            let owned = |p: (&str, &str)| (p.0.to_string(), p.1.to_string());
            assert_eq!(split_once(s, c), s.split_once(c).map(owned));
            assert_eq!(rsplit_once(s, c), s.rsplit_once(c).map(owned));
        }
        for pat in ["a", "aa", "aba", "{player}", ":", " "] {
            assert_eq!(has(s, pat), s.contains(pat));
            assert_eq!(after_first(s, pat), s.split(pat).nth(1).map(|p| p.to_string()));
            assert_eq!(replace(s, pat, "<>"), s.replace(pat, "<>"));
            assert_eq!(without_prefix(s, pat).as_deref(), s.strip_prefix(pat));
            assert_eq!(without_suffix(s, pat).as_deref(), s.strip_suffix(pat));
            assert_eq!(
                between(s, pat, "a").as_deref(),
                s.strip_prefix(pat).and_then(|r| r.strip_suffix("a"))
            );
        }
        for t in SAMPLES {
            assert_eq!(same(s, t), s == t);
        }
    }
    let parts: Vec<String> = vec!["a".into(), "".into(), "c".into()];
    assert_eq!(join(&parts, ", "), "a, , c");
    assert_eq!(join(&Vec::new(), ", "), "");
}

#[test]
fn numerals_agree_with_the_standard_library() {
    for n in [0u128, 7, 10, 99, 100, 1_000_000, u64::MAX as u128, u128::MAX] {
        assert_eq!(numeral(n), n.to_string());
    }
    for i in [i64::MIN, -137, -1, 0, 1, 137, i64::MAX] {
        assert_eq!(numeral_signed(i), i.to_string());
    }
    for s in [
        "", "+", "-", "0", "+0", "-0", "007", "+42", "18446744073709551615",
        "18446744073709551616", " 1", "1 ", "1_000", "0x10", "٣", "++1", "notanumber",
        "65535x", "65536x", "6553x", "6554x", "655360", "65536٣", "+65536+", "-65536", "00065535",
        "99999999999999999999x", "1844674407370955161x", "18446744073709551616 ", "0000065536",
    ] {
        let words = |f: NumberFault| f.message().to_string();
        assert_eq!(
            unsigned(s, u64::MAX).map_err(words),
            s.parse::<u64>().map_err(|e| e.to_string()),
            "{s:?}"
        );
        assert_eq!(
            unsigned(s, u16::MAX as u64).map_err(words),
            s.parse::<u16>().map(u64::from).map_err(|e| e.to_string()),
            "{s:?}"
        );
    }
}

#[test]
fn spans_do_not_go_below_zero() {
    let (early, late) = (Moment::from_secs(10), Moment::from_secs(100));
    assert_eq!(late.since(early), Span::from_secs(90));
    assert_eq!(early.since(late), Span::from_secs(0));
    assert_eq!(Span { nanos: 59_999_999_999 }.whole_secs(), 59);
}
