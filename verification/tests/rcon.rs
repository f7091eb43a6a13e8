use hijuepapus_bot::rcon::ascii_fold;

#[test]
fn folds_spanish_accents_and_punctuation() {
    assert_eq!(
        ascii_fold("¡La ínsula tiembla! Un veneno de encantador le corre por las venas."),
        " La insula tiembla! Un veneno de encantador le corre por las venas."
    );
    assert_eq!(ascii_fold("¿Dónde está el Quijote?"), " Donde esta el Quijote?");
    assert_eq!(ascii_fold("ñoño ÑOÑO"), "nono NONO");
}

#[test]
fn plain_ascii_passes_through_unchanged() {
    let cmd = "execute at Juan run summon minecraft:zombie ~ ~ ~";
    assert_eq!(ascii_fold(cmd), cmd);
    assert_eq!(ascii_fold("give Juan minecraft:bread 3"), "give Juan minecraft:bread 3");
}

#[test]
fn output_is_always_ascii() {
    for s in [
        "emoji: ⚡🏰 y acentos áéíóú",
        "巨大な文字",
        ":skull: ¡jauría de dos zombis!",
    ] {
        assert!(ascii_fold(s).is_ascii(), "not ascii: {s}");
    }
}

#[test]
fn drops_unmappable_glyphs_but_keeps_the_sentence() {
    let out = ascii_fold("La rueda ⚡ ha girado para Juan");
    assert!(out.is_ascii());
    assert!(out.contains("La rueda"));
    assert!(out.contains("ha girado para Juan"));
}
