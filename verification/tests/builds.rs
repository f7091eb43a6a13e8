use hijuepapus_bot::changelog::{
    announcement, build_log, build_sha, parse_build, recorded_sha, render, short_sha,
};

#[test]
fn logs_are_read_back_in_order() {
    let b = parse_build("s", "s1\u{1e}one\u{1e}more\u{1f}s2\u{1e}\u{1f}s3\u{1e}three");
    assert_eq!(b.sha, "s");
    assert_eq!(b.subjects, vec!["one\u{1e}more", "", "three"]);
    // The commits belong to the subjects: everything before s3 is newer.
    let said = render(&b, Some("s3"));
    assert!(said.contains("- one\u{1e}more\n- (sin asunto)\n"));
    assert!(!said.contains("three"));
}

#[test]
fn a_proclamation_in_full() {
    let b = parse_build("abc1234567", "abc1234\u{1e}  First \u{1f}def5678\u{1e}Second");
    assert_eq!(
        render(&b, None),
        ":scroll: ¡Oíd, oíd, buenas gentes de la ínsula! Don Quijote desmonta de Rocinante para \
         pregonar la nueva singladura del código, recién forjada en la fragua de los \
         desarrolladores desde la última crónica:\n- First\n- Second\n\n*Que quede sellado en el \
         pergamino:* build `abc1234`"
    );
    assert!(render(&b, Some("abc1234")).contains("Ningún hecho memorable"));
}

#[test]
fn eight_subjects_fit_and_nine_do_not() {
    let log = |n: usize| {
        (0..n).map(|i| format!("s{i}\u{1e}Subject {i}.")).collect::<Vec<_>>().join("\u{1f}")
    };
    let more = "...y algunas otras enmiendas menores.";
    assert!(!render(&parse_build("x", &log(8)), None).contains(more));
    let nine = render(&parse_build("x", &log(9)), None);
    assert!(nine.contains("Subject 7.") && !nine.contains("Subject 8.") && nine.contains(more));
    // Nine commits, of which eight are new.
    assert!(!render(&parse_build("x", &log(9)), Some("s8")).contains(more));
}

#[test]
fn a_restart_of_the_same_build_is_silent() {
    let log = "abc1234\u{1e}Fix";
    let said = announcement("abc1234", log, None).unwrap();
    assert_eq!(said, render(&parse_build("abc1234", log), None));
    assert_eq!(recorded_sha("abc1234\n"), "abc1234");
    assert_eq!(announcement("abc1234", log, Some(&recorded_sha("abc1234\n"))), None);
    assert!(announcement("abc1234", log, Some("def5678")).is_some());
}

#[test]
fn shas_are_cut_by_characters() {
    assert_eq!(short_sha("ñandúes!"), "ñandúes");
}

#[test]
fn git_goes_before_the_build_argument_and_that_before_the_fallback() {
    assert_eq!(build_sha(Some("abc1234\n"), Some("arg")), "abc1234");
    assert_eq!(build_sha(Some(" \n"), Some("arg")), "arg");
    assert_eq!(build_sha(None, Some("arg")), "arg");
    assert_eq!(build_sha(None, Some("")), "desconocido");
    assert_eq!(build_sha(None, None), "desconocido");

    let git = "a\u{1e}one\r\nb\u{1e}two\n";
    assert_eq!(build_log(Some(git), Some("arg")), "a\u{1e}one\u{1f}b\u{1e}two");
    assert_eq!(parse_build("a", &build_log(Some(git), None)).subjects, vec!["one", "two"]);
    assert_eq!(build_log(Some(""), Some("arg")), "arg");
    assert_eq!(build_log(None, Some("")), "");
    assert_eq!(build_log(None, None), "");
}

#[test]
fn the_lines_with_a_dash_are_the_subjects() {
    for n in 0..=12usize {
        let log = (0..n)
            .map(|i| format!("s{i}\u{1e} {} ", if i == 2 { "" } else { "- Subject" }))
            .collect::<Vec<_>>()
            .join("\u{1f}");
        let said = render(&parse_build("x", &log), None);
        let dashed: Vec<&str> = said.split('\n').filter(|l| l.starts_with("- ")).collect();
        let expected: Vec<&str> = (0..n.min(8))
            .map(|i| if i == 2 { "- (sin asunto)" } else { "- - Subject" })
            .collect();
        assert_eq!(dashed, expected);
        let more = said.split('\n').any(|l| l == "...y algunas otras enmiendas menores.");
        assert_eq!(more, n > 8);
    }
}
