use hijuepapus_bot::rcon::{ascii_fold, Delivery};

#[test]
fn every_folded_character() {
    assert_eq!(
        ascii_fold("áàäâéèëêíìïîóòöôúùüûñÁÀÄÂÉÈËÊÍÌÏÎÓÒÖÔÚÙÜÛÑçÇ¡¿«»—–…"),
        "aaaaeeeeiiiioooouuuunAAAAEEEEIIIIOOOOUUUUNcC  \"\"--."
    );
    assert_eq!(ascii_fold("a\u{7f}b\u{80}c"), "a\u{7f}bc");
}

#[test]
fn folding_twice_changes_nothing_more() {
    for s in ["¡Ensillad a Rocinante! ⚡", "plain", "", "ßøå"] {
        let once = ascii_fold(s);
        assert!(once.is_ascii());
        assert_eq!(ascii_fold(&once), once);
    }
}

#[test]
fn folding_goes_piece_by_piece() {
    let (a, b) = ("La rueda ⚡", " girará: ¿sí?");
    assert_eq!(ascii_fold(&format!("{a}{b}")), format!("{}{}", ascii_fold(a), ascii_fold(b)));
}

fn run(connected: bool, steps: &[bool]) -> (Delivery, usize) {
    let mut d = Delivery::begin(connected);
    let mut sends = 0;
    for ok in steps {
        if matches!(d, Delivery::Send { .. }) {
            sends += 1;
        }
        d = d.next(*ok);
    }
    (d, sends)
}

#[test]
fn a_dead_connection_is_replaced_once() {
    assert_eq!(run(true, &[true]), (Delivery::Answered, 1));
    assert_eq!(run(true, &[false, true, true]), (Delivery::Answered, 2));
    assert_eq!(run(true, &[false, true, false]), (Delivery::Refused, 2));
    assert_eq!(run(true, &[false, false]), (Delivery::Unreachable, 1));
    assert_eq!(run(false, &[false]), (Delivery::Unreachable, 0));
    assert_eq!(run(false, &[true, false, true, false]), (Delivery::Refused, 2));
    // An end is an end.
    assert_eq!(run(true, &[true, false, true, true]), (Delivery::Answered, 1));
}
