use hijuepapus_bot::clock::Span;
use hijuepapus_bot::commands::{
    add_order, backup_report, failure_notice, fortuna_reply, fortuna_spin, has_role, is_admin,
    is_remover, offline_report, online_report, players_line, pobre_message, quixotify_whitelist,
    remove_order, say_order, say_reply, start_report, state_line, stop_report, stop_watched,
    wedge_explanation, wedge_refusal, wheel_orders, whitelist_reply, whitelist_retry, BackupStep,
    BackupVigil, Look, MemoryLine, TpsLine, HELP, NOT_AN_ADMIN, NOT_A_REMOVER, NO_TRACE,
    RCON_FAILED, RESTING, UNFIT_NAME, WAKING,
};
use hijuepapus_bot::docker::ContainerStatus;
use hijuepapus_bot::fortuna::spin_with;

fn container(running: bool, status: Option<&str>, exit_code: Option<i64>) -> Option<ContainerStatus> {
    Some(ContainerStatus {
        running,
        health: None,
        started_at: None,
        exit_code,
        status: status.map(|s| s.to_string()),
    })
}

#[test]
fn help_names_every_command() {
    for c in [
        "/status", "/whitelist add", "/whitelist list", "/say", "/help", "/start", "/stop",
        "/restart", "/backup now", "/fortuna", "/whitelist remove",
    ] {
        assert!(HELP.contains(c), "{c}");
    }
}

#[test]
fn gates_go_by_role() {
    let roles = Some(vec![5, 7]);
    assert!(has_role(&roles, 7) && !has_role(&roles, 6) && !has_role(&None, 7));
    assert_eq!(is_admin(&roles, 5), Ok(()));
    assert_eq!(is_admin(&roles, 6), Err(NOT_AN_ADMIN));
    assert_eq!(is_admin(&None, 5), Err(NOT_AN_ADMIN));
    // With a role of its own, being an admin is not enough.
    assert_eq!(is_remover(&roles, Some(7), 99), Ok(()));
    assert_eq!(is_remover(&roles, Some(8), 5), Err(NOT_A_REMOVER));
    assert_eq!(is_remover(&roles, None, 5), Ok(()));
    assert_eq!(is_remover(&roles, None, 6), Err(NOT_AN_ADMIN));
}

#[test]
fn states_in_full() {
    assert_eq!(
        state_line(Some("exited"), Some(-9)),
        "Yace dormida la ínsula, detenida en buen orden (código de salida -9). Ni un alma en sus dominios."
    );
    assert_eq!(state_line(Some("exited"), None), state_line(Some("exited"), Some(0)));
    assert_eq!(
        state_line(Some("created"), Some(1)),
        "Yace la ínsula en estado 'created', vuestra merced. Ni un alma en sus dominios."
    );
    assert_eq!(
        wedge_explanation(None),
        "Trabada yace la ínsula (podman la reporta en el estado 'desconocido'), no por reposo sino \
         por un mal encantamiento en sus entrañas. Ni /start ni /restart pueden ya desatarla: el \
         vigía del castillo (host) la reconstruirá por su propia mano en pocos minutos, sin que \
         nadie lo mande. Paciencia, vuestra merced; si tarda en exceso, consulte el RUNBOOK."
    );
}

#[test]
fn a_server_that_is_down_is_reported_with_its_state() {
    assert_eq!(offline_report("mc.example", &container(true, Some("stopping"), None)), None);
    assert_eq!(
        offline_report("mc.example", &None).unwrap(),
        ":red_circle: **mc.example**\nYace dormida la ínsula, vuestra merced. Ni un alma en sus dominios."
    );
    let wedged = offline_report("mc.example", &container(false, Some("dead"), None)).unwrap();
    assert!(wedged.starts_with(":skull: **mc.example**\nTrabada yace"));
    let stopped = offline_report("mc.example", &container(false, Some("exited"), Some(3))).unwrap();
    assert!(stopped.starts_with(":red_circle: ") && stopped.contains("salida 3)"));
}

#[test]
fn a_server_that_runs_is_reported_with_what_answered() {
    let tps = Some(TpsLine {
        last_1m: "20.0".into(),
        last_5m: "19.9".into(),
        last_15m: "19.8".into(),
        catching_up: true,
    });
    let mem = Some(MemoryLine { used: "3.1".into(), limit: "8.0".into() });
    assert_eq!(
        online_report(
            "mc.example",
            Some("There are 2 of a max of 8 players online: ana, bob"),
            &tps,
            &mem,
            Some("ayer"),
        ),
        ":green_circle: **mc.example**\nHidalgos presentes: 2/8 (ana, bob)\n\
         TPS (1m/5m/15m): 20.0 / 19.9 / 19.8 (recobrando el resuello)\n\
         Memoria (bálsamo de Fierabrás consumido): 3.1 / 8.0 GiB\nEn pie desde: ayer\n"
    );
    assert_eq!(
        online_report("mc.example", Some("garbage"), &None, &None, None),
        ":green_circle: **mc.example**\n\
         Hidalgos presentes: el RCON aún no responde, paciencia vuestra merced\n"
    );
    assert_eq!(
        players_line(Some("There are 0 of a max of 8 players online:")),
        "Hidalgos presentes: 0/8\n"
    );
}

#[test]
fn wedged_containers_are_neither_started_nor_restarted() {
    for status in ["stopping", "removing", "dead", "paused"] {
        assert_eq!(
            wedge_refusal(&container(true, Some(status), None)),
            Some(wedge_explanation(Some(status)))
        );
    }
    assert_eq!(wedge_refusal(&container(false, Some("exited"), None)), None);
    assert_eq!(wedge_refusal(&None), None);
}

#[test]
fn what_came_of_a_start() {
    assert_eq!(start_report(&container(true, Some("running"), None)), WAKING);
    assert_eq!(start_report(&None), NO_TRACE);
    assert_eq!(
        start_report(&container(false, None, None)),
        "Se libró la orden de despertar, mas la ínsula aún no galopa (estado 'desconocido'). \
         Aguarde vuestra merced unos instantes y consulte /status."
    );
}

#[test]
fn what_came_of_a_stop() {
    let (soon, late) = (Span { nanos: 149_999_999_999 }, Span::from_secs(150));
    assert!(stop_watched(Some("exited"), soon) && stop_watched(None, late));
    assert!(!stop_watched(Some("created"), soon) && !stop_watched(None, soon));
    assert_eq!(stop_report(Some("exited")), RESTING);
    let stuck = stop_report(Some("paused"));
    assert!(stuck.contains("TRABADA en el estado 'paused' en vez de dormir en paz"));
    assert_eq!(
        stop_report(None),
        "El mandato de reposo se libró, mas tras dos minutos y medio la ínsula aún no confirma su \
         descanso (estado 'desconocido'). Consulte vuestra merced /status."
    );
}

#[test]
fn only_life_cycle_failures_reach_the_admins() {
    assert_eq!(
        failure_notice("restart", "boom", 42).unwrap(),
        "<@&42> :rotating_light: **/restart** ha fracasado: boom"
    );
    assert!(failure_notice("start", "x", 1).is_some() && failure_notice("stop", "x", 1).is_some());
    assert_eq!(failure_notice("status", "boom", 42), None);
    assert_eq!(failure_notice("Start", "boom", 42), None);
}

#[test]
fn saying_something() {
    assert_eq!(say_order("hola  "), "say hola  ");
    assert_eq!(say_reply("hola", true), "Pregonado a los cuatro vientos: hola");
    assert_eq!(
        say_reply("hola", false),
        "Duerme la ínsula; vuestro pregón se pierde en el silencio."
    );
}

#[test]
fn replies_about_the_roll_in_full() {
    assert_eq!(
        quixotify_whitelist(" Added a b to the whitelist\n"),
        ":crossed_swords: ¡Regocijaos! **a b** ha sido armado caballero de la ínsula. Que su pico \
         sea recto y su lana abundante."
    );
    assert_eq!(
        quixotify_whitelist("Removed x from the whitelist"),
        ":scroll: Con pesar lo proclamo: **x** ha sido desterrado del padrón. Que los molinos le \
         sean leves en su exilio."
    );
    assert_eq!(
        quixotify_whitelist("whitelisted player(s): a whitelisted player(s): b"),
        ":scroll: **El rollo de los caballeros de la ínsula:** a"
    );
    assert!(quixotify_whitelist("").contains("virgen"));
    assert_eq!(
        quixotify_whitelist(" hm "),
        "Responde la ínsula con palabras que este hidalgo no alcanza a versar: *hm*"
    );
}

#[test]
fn unknown_accounts_are_tried_by_name() {
    let cmd = add_order("Bispannus");
    assert_eq!(cmd, "whitelist add Bispannus");
    assert_eq!(remove_order("x y"), "whitelist remove x y");
    let first = "That player does not exist";
    assert_eq!(
        whitelist_retry(&cmd, first).unwrap(),
        "easywhitelist add Bispannus"
    );
    assert_eq!(whitelist_retry(&cmd, "Added Bispannus to the whitelist"), None);
    assert_eq!(whitelist_retry("whitelist list", first), None);

    assert_eq!(
        whitelist_reply(first, Some("Added Bispannus to the whitelist")),
        pobre_message("Bispannus")
    );
    assert_eq!(
        whitelist_reply(first, Some("Player is already whitelisted")),
        quixotify_whitelist("Player is already whitelisted")
    );
    assert_eq!(whitelist_reply(first, None), quixotify_whitelist(first));
    // Let in by the front door, without a jab.
    assert!(whitelist_reply("Added x to the whitelist", None).contains("¡Regocijaos!"));
}

#[test]
fn paupers_are_told_apart_by_the_length_of_their_names() {
    assert_eq!(pobre_message("ñandú").matches("ñandú").count(), 1);
    assert_eq!(pobre_message("abcd"), pobre_message("efghijkl").replace("efghijkl", "abcd"));
}

#[test]
fn a_backup_is_watched_to_its_end() {
    let mut v = BackupVigil::new();
    assert_eq!(v.observe(Look::Running), BackupStep::Wait);
    for _ in 0..4 {
        assert_eq!(v.observe(Look::Failed), BackupStep::Wait);
    }
    assert_eq!(v.observe(Look::Running), BackupStep::Wait);
    assert_eq!(v.observe(Look::Stopped { exit_code: Some(0) }), BackupStep::Report { code: 0 });

    assert_eq!(
        BackupVigil::new().observe(Look::Stopped { exit_code: None }),
        BackupStep::Report { code: -1 }
    );
    assert_eq!(BackupVigil::new().observe(Look::Gone), BackupStep::Vanished);
}

#[test]
fn five_failed_looks_in_a_row_lose_the_backup() {
    let mut v = BackupVigil::new();
    for _ in 0..4 {
        assert_eq!(v.observe(Look::Failed), BackupStep::Wait);
    }
    let step = v.observe(Look::Failed);
    assert_eq!(step, BackupStep::Lost);
    assert!(step.farewell().unwrap().contains("API de Docker"));
    assert!(BackupStep::Vanished.farewell().unwrap().contains("desvanecido"));
    assert_eq!(BackupStep::Wait.farewell(), None);
    assert_eq!(BackupStep::Report { code: 0 }.farewell(), None);
}

#[test]
fn three_hundred_looks_are_enough() {
    let mut v = BackupVigil::new();
    for _ in 0..299 {
        assert_eq!(v.observe(Look::Running), BackupStep::Wait);
    }
    let step = v.observe(Look::Failed);
    assert_eq!(step, BackupStep::Slow);
    assert!(step.farewell().unwrap().contains("diez minutos"));
}

#[test]
fn backups_are_reported_with_code_and_log() {
    assert_eq!(
        backup_report(0, "done"),
        ":white_check_mark: La encomienda de respaldo se ha cumplido con honor (código de salida 0)\n```\ndone\n```"
    );
    assert!(backup_report(-1, "").starts_with(
        ":rotating_light: ¡La encomienda de respaldo ha FRACASADO! (código de salida -1)"
    ));
}

#[test]
fn the_wheel_is_refused_without_a_roll() {
    let mut rolled = 0;
    let mut rng = || {
        rolled += 1;
        0
    };
    assert_eq!(fortuna_spin("@a", 3, None, &mut rng), Err(UNFIT_NAME.to_string()));
    assert_eq!(
        fortuna_spin("Juan", 3, Some("oro"), &mut rng),
        Err("No hallo tal suerte en el sino de esta rueda: `oro` no es un efecto conocido.".into())
    );
    assert_eq!(rolled, 0);
}

#[test]
fn the_wheel_turns_by_hours_or_by_effect() {
    let mut zero = || 0;
    assert_eq!(fortuna_spin("Juan", 3, None, &mut zero), Ok(spin_with("Juan", 3, 0, 0, 0)));
    let forced = fortuna_spin("Juan", 3, Some("jauria"), &mut zero).unwrap();
    assert_eq!(forced.effect_id, "jauria");
    let orders = wheel_orders(&forced);
    assert_eq!(orders.len(), 6);
    assert_eq!(orders[0], format!("say {}", forced.game_msg));
    assert_eq!(orders[1..], forced.commands[..]);

    assert_eq!(fortuna_reply(&forced, None, false), forced.discord_msg);
    assert_eq!(
        fortuna_reply(&forced, Some("jauria"), true),
        format!("{}\n*(suerte: jauria)*{RCON_FAILED}", forced.discord_msg)
    );
}
