//! What the slash commands decide and say. The side that talks to Discord, to
//! the container API and to the server hands plain values in and carries out
//! what comes back.

use vstd::prelude::*;
use crate::clock::Span;
use crate::docker::{is_wedged, word_or, ContainerStatus};
use crate::fortuna::{spin, spin_forced, valid_player_name, RollSource, Spin};
use crate::parse::parse_list;
use crate::text::{
    after_first, as_slice, between, chars_of, glue, has, join, numeral, numeral_signed, replace,
    same, split_once, trimmed, without_prefix,
};

verus! {

/// The status of a container, where there is one.
pub open spec fn status_in(mc: Option<ContainerStatus>) -> Option<Seq<char>> {
    match mc {
        Some(s) => crate::text::opt_string(s.status),
        None => None,
    }
}

fn status_text(mc: &Option<ContainerStatus>) -> (r: Option<&str>)
    ensures
        crate::text::opt(r) == status_in(*mc),
{
    match mc {
        Some(s) => as_slice(&s.status),
        None => None,
    }
}

/// What a poll of the container says of it: its own status, and none where
/// there is no container; it runs only if there is one that runs.
pub proof fn law_a_missing_container_has_no_status(mc: Option<ContainerStatus>)
    ensures
        mc is None ==> status_in(mc) is None && !runs(mc),
        mc matches Some(s) ==> {
            &&& runs(mc) == s.running
            &&& s.status is None ==> status_in(mc) is None
            &&& s.status matches Some(word) ==> status_in(mc) == Some(word@)
        },
{
}

// ---------------------------------------------------------------------------
// Help
// ---------------------------------------------------------------------------

pub const HELP: &'static str = "**El pergamino de Don Quijote del nether** 📜\n\n*Para todo villano o caballero:*\n`/status` — el estado de la ínsula: almas presentes, TPS, memoria\n`/whitelist add <nombre>` — armar caballero a un nuevo jugador\n`/whitelist list` — leer el rollo de los caballeros\n`/say <mensaje>` — hablar al mundo con la voz del servidor\n`/help` — este pergamino\n\n*Solo para la orden de El quijote:*\n`/start` `/stop` `/restart` — despertar, dormir o reiniciar la ínsula\n`/backup now` — encomendar los mundos al arca de respaldo\n`/fortuna jugador:<nombre> horas:<n> suerte:<id>` — girar a voluntad la Rueda de la Fortuna sobre un caballero\n\n*Solo para los Ludópatas Antisionistas:*\n`/whitelist remove <nombre>` — desterrar a un caballero\n\n*Y sin que nadie lo mande, este hidalgo proclama:* caídas y resurrecciones de la ínsula, fracasos del arca, crónicas de sesiones largas, las hazañas de cada caballero, los giros de la Rueda de la Fortuna y las elegías de quienes cayeron en el intento.";

// ---------------------------------------------------------------------------
// Gates
// ---------------------------------------------------------------------------

pub const NOT_AN_ADMIN: &'static str = "Alto ahí. Solo los caballeros de la orden de El quijote pueden blandir tal comando.";

pub const NOT_A_REMOVER: &'static str = "Alto ahí. Solo los caballeros de la orden de los Ludópatas Antisionistas tienen licencia para desterrar a un hidalgo de la ínsula.";

/// The author is a member with the given role.
pub open spec fn holds(roles: Option<Vec<u64>>, role_id: u64) -> bool {
    roles is Some && roles.unwrap()@.contains(role_id)
}

/// Whether the author of a command has a role. `roles` are the author's own;
/// none if the author is not known as a member.
pub fn has_role(roles: &Option<Vec<u64>>, role_id: u64) -> (r: bool)
    ensures
        r == holds(*roles, role_id),
{
    match roles {
        None => false,
        Some(ids) => {
            for i in 0..ids.len()
                invariant
                    *roles == Some(*ids),
                    forall|j: int| 0 <= j < i ==> ids@[j] != role_id,
            {
                if ids[i] == role_id {
                    assert(ids@.contains(role_id));
                    return true;
                }
            }
            false
        },
    }
}

/// Who holds a role: a member with that role among their own, and nobody who is
/// not known as a member.
pub proof fn law_only_members_hold_roles(roles: Option<Vec<u64>>, role_id: u64)
    ensures
        roles is None ==> !holds(roles, role_id),
        roles matches Some(ids) ==> (holds(roles, role_id) <==> exists|k: int|
            0 <= k < ids@.len() && #[trigger] ids@[k] == role_id),
{
}

/// Lets admins pass and tells anyone else why not.
pub fn is_admin(roles: &Option<Vec<u64>>, admin_role_id: u64) -> (r: Result<(), &'static str>)
    ensures
        match r {
            Ok(_) => holds(*roles, admin_role_id),
            Err(words) => !holds(*roles, admin_role_id) && words@ == NOT_AN_ADMIN@,
        },
{
    if has_role(roles, admin_role_id) {
        Ok(())
    } else {
        Err(NOT_AN_ADMIN)
    }
}

/// Lets those pass who may banish a player: the holders of a role of its own
/// where one is configured, and the admins otherwise.
pub fn is_remover(
    roles: &Option<Vec<u64>>,
    remover_role_id: Option<u64>,
    admin_role_id: u64,
) -> (r: Result<(), &'static str>)
    ensures
        match (remover_role_id, r) {
            (Some(id), Ok(_)) => holds(*roles, id),
            (Some(id), Err(words)) => !holds(*roles, id) && words@ == NOT_A_REMOVER@,
            (None, Ok(_)) => holds(*roles, admin_role_id),
            (None, Err(words)) => !holds(*roles, admin_role_id) && words@ == NOT_AN_ADMIN@,
        },
{
    match remover_role_id {
        Some(id) => if has_role(roles, id) {
            Ok(())
        } else {
            Err(NOT_A_REMOVER)
        },
        None => is_admin(roles, admin_role_id),
    }
}

// ---------------------------------------------------------------------------
// Status
// ---------------------------------------------------------------------------

pub const WEDGE_HEAD: &'static str = "Trabada yace la ínsula (podman la reporta en el estado '";

pub const WEDGE_TAIL: &'static str = "'), no por reposo sino por un mal encantamiento en sus entrañas. Ni /start ni /restart pueden ya desatarla: el vigía del castillo (host) la reconstruirá por su propia mano en pocos minutos, sin que nadie lo mande. Paciencia, vuestra merced; si tarda en exceso, consulte el RUNBOOK.";

pub const STOPPED_HEAD: &'static str = "Yace dormida la ínsula, detenida en buen orden (código de salida ";

pub const STOPPED_TAIL: &'static str = "). Ni un alma en sus dominios.";

pub const STATE_HEAD: &'static str = "Yace la ínsula en estado '";

pub const STATE_TAIL: &'static str = "', vuestra merced. Ni un alma en sus dominios.";

pub const ASLEEP: &'static str = "Yace dormida la ínsula, vuestra merced. Ni un alma en sus dominios.";

/// That a container is wedged, in words.
pub open spec fn wedge_words(status: Option<Seq<char>>) -> Seq<char> {
    WEDGE_HEAD@ + crate::docker::status_word(status, "desconocido"@) + WEDGE_TAIL@
}

/// Explains a wedged container: its status, that neither `/start` nor
/// `/restart` can mend it, and that the host will.
pub fn wedge_explanation(status: Option<&str>) -> (r: String)
    ensures
        r@ == wedge_words(crate::text::opt(status)),
{
    glue(WEDGE_HEAD, word_or(status, "desconocido"), WEDGE_TAIL)
}

/// The state of a container that is not running, in words.
pub open spec fn state_words(status: Option<Seq<char>>, exit_code: Option<i64>) -> Seq<char> {
    if crate::docker::wedged(status) {
        wedge_words(status)
    } else if status == Some("exited"@) {
        STOPPED_HEAD@ + crate::text::decimal_int(
            match exit_code {
                Some(code) => code as int,
                None => 0,
            },
        ) + STOPPED_TAIL@
    } else {
        match status {
            Some(word) => STATE_HEAD@ + word + STATE_TAIL@,
            None => ASLEEP@,
        }
    }
}

pub fn state_line(status: Option<&str>, exit_code: Option<i64>) -> (r: String)
    ensures
        r@ == state_words(crate::text::opt(status), exit_code),
{
    if is_wedged(status) {
        return wedge_explanation(status);
    }
    match status {
        Some(word) => if same(word, "exited") {
            let code: i64 = match exit_code {
                Some(code) => code,
                None => 0,
            };
            glue(STOPPED_HEAD, numeral_signed(code).as_str(), STOPPED_TAIL)
        } else {
            glue(STATE_HEAD, word, STATE_TAIL)
        },
        None => String::from_str(ASLEEP),
    }
}

/// A wedged container never reads like one that stopped, whatever its exit
/// code, and its status is named.
pub proof fn law_a_wedge_never_reads_as_a_stop(
    status: Option<Seq<char>>,
    code: Option<i64>,
    other: Option<Seq<char>>,
    other_code: Option<i64>,
)
    requires
        crate::docker::wedged(status),
        !crate::docker::wedged(other),
    ensures
        state_words(status, code) != state_words(other, other_code),
        crate::text::contains(state_words(status, code), status.unwrap()),
{
    reveal_strlit("Trabada yace la ínsula (podman la reporta en el estado '");
    reveal_strlit("Yace dormida la ínsula, detenida en buen orden (código de salida ");
    reveal_strlit("Yace la ínsula en estado '");
    reveal_strlit("Yace dormida la ínsula, vuestra merced. Ni un alma en sus dominios.");
    let w = state_words(status, code);
    let o = state_words(other, other_code);
    assert(w[0] == 'T');
    assert(o[0] == 'Y');
    let word = status.unwrap();
    let n = WEDGE_HEAD@.len() as int;
    assert(w.subrange(n, n + word.len()) == word);
    assert(crate::text::occurs_at(w, word, n));
}

/// What is said of a container that does not run, by its status: a stuck one
/// is told to be stuck, one that has exited with its exit code, any other with
/// its status, and one without a status to be asleep.
pub proof fn law_every_state_has_its_words(status: Option<Seq<char>>, exit_code: Option<i64>)
    ensures
        status matches Some(word) ==> {
            let stuck = word == "stopping"@ || word == "removing"@ || word == "dead"@ || word
                == "paused"@;
            let said = state_words(status, exit_code);
            &&& stuck ==> said == "Trabada yace la ínsula (podman la reporta en el estado '"@ + word
                + WEDGE_TAIL@
            &&& word == "exited"@ ==> said
                == "Yace dormida la ínsula, detenida en buen orden (código de salida "@ + (
            match exit_code {
                Some(code) => crate::text::decimal_int(code as int),
                None => seq!['0'],
            }) + "). Ni un alma en sus dominios."@
            &&& !stuck && word != "exited"@ ==> said == "Yace la ínsula en estado '"@ + word
                + "', vuestra merced. Ni un alma en sus dominios."@
        },
        status is None ==> state_words(status, exit_code)
            == "Yace dormida la ínsula, vuestra merced. Ni un alma en sus dominios."@,
{
    crate::docker::law_what_settles(status, Seq::empty());
    crate::text::law_numerals(0, 0);
}

/// The container runs.
pub open spec fn runs(mc: Option<ContainerStatus>) -> bool {
    mc is Some && mc.unwrap().running
}

/// The reply to `/status` for a server that is not running; none if it is.
pub fn offline_report(server_address: &str, mc: &Option<ContainerStatus>) -> (r: Option<String>)
    ensures
        match r {
            None => runs(*mc),
            Some(s) => !runs(*mc) && s@ == (if crate::docker::wedged(status_in(*mc)) {
                ":skull: **"@
            } else {
                ":red_circle: **"@
            }) + server_address@ + "**\n"@ + state_words(
                status_in(*mc),
                match *mc {
                    Some(s) => s.exit_code,
                    None => None,
                },
            ),
        },
{
    let (running, exit_code): (bool, Option<i64>) = match mc {
        Some(s) => (s.running, s.exit_code),
        None => (false, None),
    };
    if running {
        return None;
    }
    let status = status_text(mc);
    let icon = if is_wedged(status) {
        ":skull: **"
    } else {
        ":red_circle: **"
    };
    let mut out = glue(icon, server_address, "**\n");
    out.append(state_line(status, exit_code).as_str());
    Some(out)
}

/// Ticks per second over the last 1, 5 and 15 minutes, each rendered with one
/// decimal.
pub struct TpsLine {
    pub last_1m: String,
    pub last_5m: String,
    pub last_15m: String,
    pub catching_up: bool,
}

/// Memory in use and its limit in GiB, each rendered with one decimal.
pub struct MemoryLine {
    pub used: String,
    pub limit: String,
}

/// The line that tells of the players, from the reply to `list`.
pub open spec fn players_words(list_reply: Option<Seq<char>>) -> Seq<char> {
    let list = match list_reply {
        Some(raw) => crate::parse::list_of(raw),
        None => None,
    };
    match list {
        Some((online, max, names)) => "Hidalgos presentes: "@ + crate::text::decimal(online) + "/"@
            + crate::text::decimal(max) + (if names.len() > 0 {
            " ("@ + crate::text::joined(names, ", "@) + ")"@
        } else {
            Seq::empty()
        }) + "\n"@,
        None => "Hidalgos presentes: el RCON aún no responde, paciencia vuestra merced\n"@,
    }
}

pub fn players_line(list_reply: Option<&str>) -> (r: String)
    ensures
        r@ == players_words(crate::text::opt(list_reply)),
{
    let list = match list_reply {
        Some(raw) => parse_list(raw),
        None => None,
    };
    match list {
        Some(p) => {
            let mut out = glue("Hidalgos presentes: ", numeral(p.online as u128).as_str(), "/");
            out.append(numeral(p.max as u128).as_str());
            if p.names.len() > 0 {
                out.append(glue(" (", join(&p.names, ", ").as_str(), ")").as_str());
            }
            out.append("\n");
            out
        },
        None => String::from_str(
            "Hidalgos presentes: el RCON aún no responde, paciencia vuestra merced\n",
        ),
    }
}

/// What `/status` says of the players: how many there are of how many there can
/// be, and who; or that the server does not answer, where nothing came that
/// makes sense.
pub proof fn law_players_are_counted_and_named(raw: Seq<char>)
    ensures
        players_words(None)
            == "Hidalgos presentes: el RCON aún no responde, paciencia vuestra merced\n"@,
        crate::parse::list_of(raw) is None ==> players_words(Some(raw))
            == "Hidalgos presentes: el RCON aún no responde, paciencia vuestra merced\n"@,
        crate::parse::list_of(raw) matches Some((online, max, names)) ==> {
            let count = "Hidalgos presentes: "@ + crate::text::decimal(online) + "/"@
                + crate::text::decimal(max);
            &&& names.len() == 0 ==> players_words(Some(raw)) == count + "\n"@
            &&& names.len() > 0 ==> players_words(Some(raw)) == count + (" ("@
                + crate::text::joined(names, ", "@) + ")"@) + "\n"@
        },
{
    if crate::parse::list_of(raw) is Some {
        let (online, max, names) = crate::parse::list_of(raw).unwrap();
        let count = "Hidalgos presentes: "@ + crate::text::decimal(online) + "/"@
            + crate::text::decimal(max);
        assert(count + Seq::<char>::empty() == count);
    }
}

pub open spec fn tps_words(tps: Option<TpsLine>) -> Seq<char> {
    match tps {
        Some(t) => "TPS (1m/5m/15m): "@ + t.last_1m@ + " / "@ + t.last_5m@ + " / "@ + t.last_15m@ + (
        if t.catching_up {
            " (recobrando el resuello)"@
        } else {
            Seq::empty()
        }) + "\n"@,
        None => Seq::empty(),
    }
}

fn tps_line(tps: &Option<TpsLine>) -> (r: String)
    ensures
        r@ == tps_words(*tps),
{
    match tps {
        Some(t) => {
            let mut out = glue("TPS (1m/5m/15m): ", t.last_1m.as_str(), " / ");
            out.append(t.last_5m.as_str());
            out.append(" / ");
            out.append(t.last_15m.as_str());
            if t.catching_up {
                out.append(" (recobrando el resuello)");
            }
            out.append("\n");
            out
        },
        None => String::new(),
    }
}

pub open spec fn memory_words(mem: Option<MemoryLine>) -> Seq<char> {
    match mem {
        Some(m) => "Memoria (bálsamo de Fierabrás consumido): "@ + m.used@ + " / "@ + m.limit@
            + " GiB\n"@,
        None => Seq::empty(),
    }
}

fn memory_line(mem: &Option<MemoryLine>) -> (r: String)
    ensures
        r@ == memory_words(*mem),
{
    match mem {
        Some(m) => {
            let mut out = glue("Memoria (bálsamo de Fierabrás consumido): ", m.used.as_str(), " / ");
            out.append(m.limit.as_str());
            out.append(" GiB\n");
            out
        },
        None => String::new(),
    }
}

pub open spec fn since_words(started_at: Option<Seq<char>>) -> Seq<char> {
    match started_at {
        Some(st) => "En pie desde: "@ + st + "\n"@,
        None => Seq::empty(),
    }
}

/// What `/status` says of a source that answered; one that did not is left out.
pub proof fn law_a_silent_source_is_left_out(
    tps: TpsLine,
    mem: MemoryLine,
    started_at: Seq<char>,
)
    ensures
        tps_words(None).len() == 0,
        memory_words(None).len() == 0,
        since_words(None).len() == 0,
        tps_words(Some(tps)) == "TPS (1m/5m/15m): "@ + tps.last_1m@ + " / "@ + tps.last_5m@ + " / "@
            + tps.last_15m@ + (if tps.catching_up {
            " (recobrando el resuello)"@
        } else {
            Seq::empty()
        }) + "\n"@,
        memory_words(Some(mem)) == "Memoria (bálsamo de Fierabrás consumido): "@ + mem.used@
            + " / "@ + mem.limit@ + " GiB\n"@,
        since_words(Some(started_at)) == "En pie desde: "@ + started_at + "\n"@,
{
}

/// The reply to `/status` for a server that runs, from what each source said;
/// none where one did not answer.
pub fn online_report(
    server_address: &str,
    list_reply: Option<&str>,
    tps: &Option<TpsLine>,
    mem: &Option<MemoryLine>,
    started_at: Option<&str>,
) -> (r: String)
    ensures
        r@ == ":green_circle: **"@ + server_address@ + "**\n"@ + players_words(
            crate::text::opt(list_reply),
        ) + tps_words(*tps) + memory_words(*mem) + since_words(crate::text::opt(started_at)),
{
    let mut out = glue(":green_circle: **", server_address, "**\n");
    out.append(players_line(list_reply).as_str());
    out.append(tps_line(tps).as_str());
    out.append(memory_line(mem).as_str());
    let ghost before = out@;
    if let Some(st) = started_at {
        out.append(glue("En pie desde: ", st, "\n").as_str());
    } else {
        assert(before + Seq::<char>::empty() == before);
    }
    out
}

// ---------------------------------------------------------------------------
// Start, stop and restart
// ---------------------------------------------------------------------------

/// The refusal of `/start` and `/restart` for a wedged container, which
/// neither can mend; none for any other.
pub fn wedge_refusal(mc: &Option<ContainerStatus>) -> (r: Option<String>)
    ensures
        crate::text::opt_string(r) == (if crate::docker::wedged(status_in(*mc)) {
            Some(wedge_words(status_in(*mc)))
        } else {
            None
        }),
{
    let status = status_text(mc);
    if is_wedged(status) {
        Some(wedge_explanation(status))
    } else {
        None
    }
}

pub const ALREADY_UP: &'static str = "Ya galopa la ínsula, vuestra merced; no ha menester espuelas.";

pub const WAKING: &'static str = "¡Ensillad a Rocinante! La ínsula despierta de su letargo.";

pub const NOT_YET_HEAD: &'static str = "Se libró la orden de despertar, mas la ínsula aún no galopa (estado '";

pub const NOT_YET_TAIL: &'static str = "'). Aguarde vuestra merced unos instantes y consulte /status.";

pub const NO_TRACE: &'static str = "Se libró la orden de despertar, mas ya no hallo rastro de la ínsula; acuda vuestra merced al castillo (host).";

pub const RESTARTED: &'static str = "Recomienza la justa: la ínsula se detuvo y se alzó de nuevo en buen orden.";

/// What came of an answered start, by the container as it stands afterwards.
pub open spec fn start_words(post: Option<ContainerStatus>) -> Seq<char> {
    match post {
        Some(s) => if s.running {
            WAKING@
        } else {
            NOT_YET_HEAD@ + crate::docker::status_word(status_in(post), "desconocido"@)
                + NOT_YET_TAIL@
        },
        None => NO_TRACE@,
    }
}

pub fn start_report(post: &Option<ContainerStatus>) -> (r: String)
    ensures
        r@ == start_words(*post),
{
    match post {
        Some(s) => if s.running {
            String::from_str(WAKING)
        } else {
            glue(NOT_YET_HEAD, word_or(status_text(post), "desconocido"), NOT_YET_TAIL)
        },
        None => String::from_str(NO_TRACE),
    }
}

/// `/start` claims an awakening only of a container that runs, names the status
/// of one that does not, and tells of a container that is gone.
pub proof fn law_awakening_is_claimed_only_when_true(post: Option<ContainerStatus>)
    ensures
        (post matches Some(s) && s.running) ==> start_words(post)
            == "¡Ensillad a Rocinante! La ínsula despierta de su letargo."@,
        (post matches Some(s) && !s.running) ==> start_words(post)
            == "Se libró la orden de despertar, mas la ínsula aún no galopa (estado '"@ + (
        match post.unwrap().status {
            Some(word) => word@,
            None => "desconocido"@,
        }) + "'). Aguarde vuestra merced unos instantes y consulte /status."@,
        post is None ==> start_words(post)
            == "Se libró la orden de despertar, mas ya no hallo rastro de la ínsula; acuda vuestra merced al castillo (host)."@,
{
}

/// How long `/stop` waits for the container to come to rest.
pub const STOP_SECS: u64 = 150;

/// Whether `/stop` has seen enough: the container has exited, or the time is
/// up. `since_stop` is the time since the stop was answered.
pub fn stop_watched(status: Option<&str>, since_stop: Span) -> (done: bool)
    ensures
        done == (crate::text::opt(status) == Some("exited"@) || since_stop@ >= 150_000_000_000),
        done == (crate::text::opt(status) == Some("exited"@) || since_stop@
            >= crate::clock::seconds(STOP_SECS as int)),
{
    let exited = match status {
        Some(word) => same(word, "exited"),
        None => false,
    };
    exited || since_stop.nanos >= Span::from_secs(STOP_SECS).nanos
}

pub const RESTING: &'static str = "La ínsula reposa por mandato vuestro. Dormirá hasta que un /start la despierte.";

pub const STUCK_HEAD: &'static str = "El mandato de reposo se libró, mas la ínsula ha quedado TRABADA en el estado '";

pub const STUCK_TAIL: &'static str = "' en vez de dormir en paz. El vigía del castillo (host) la reconstruirá en pocos minutos y VOLVERÁ A LEVANTARSE por su propia mano — si vuestra merced desea que repose de veras, deberá librar /stop de nuevo una vez se alce.";

pub const RESTLESS_HEAD: &'static str = "El mandato de reposo se libró, mas tras dos minutos y medio la ínsula aún no confirma su descanso (estado '";

pub const RESTLESS_TAIL: &'static str = "'). Consulte vuestra merced /status.";

/// What came of a stop, by the last status seen.
pub open spec fn stop_words(status: Option<Seq<char>>) -> Seq<char> {
    if status == Some("exited"@) {
        RESTING@
    } else if crate::docker::wedged(status) {
        STUCK_HEAD@ + status.unwrap() + STUCK_TAIL@
    } else {
        RESTLESS_HEAD@ + crate::docker::status_word(status, "desconocido"@) + RESTLESS_TAIL@
    }
}

pub fn stop_report(status: Option<&str>) -> (r: String)
    ensures
        r@ == stop_words(crate::text::opt(status)),
{
    match status {
        Some(word) => if same(word, "exited") {
            String::from_str(RESTING)
        } else if is_wedged(status) {
            glue(STUCK_HEAD, word, STUCK_TAIL)
        } else {
            glue(RESTLESS_HEAD, word, RESTLESS_TAIL)
        },
        None => glue(RESTLESS_HEAD, "desconocido", RESTLESS_TAIL),
    }
}

/// `/stop` claims rest only of a container that has exited.
pub proof fn law_rest_is_claimed_only_when_true(status: Option<Seq<char>>)
    ensures
        stop_words(status) == RESTING@ <==> status == Some("exited"@),
{
    reveal_strlit("La ínsula reposa por mandato vuestro. Dormirá hasta que un /start la despierte.");
    reveal_strlit("El mandato de reposo se libró, mas la ínsula ha quedado TRABADA en el estado '");
    reveal_strlit(
        "El mandato de reposo se libró, mas tras dos minutos y medio la ínsula aún no confirma su descanso (estado '",
    );
    assert(RESTING@[0] == 'L');
    if status != Some("exited"@) {
        assert(stop_words(status)[0] == 'E');
    }
}

/// What `/stop` says of a container that has not come to rest: that it is stuck,
/// or that it gives no sign yet, with its status in either case.
pub proof fn law_what_a_stop_says(status: Option<Seq<char>>)
    ensures
        status == Some("exited"@) ==> stop_words(status)
            == "La ínsula reposa por mandato vuestro. Dormirá hasta que un /start la despierte."@,
        (status matches Some(word) && (word == "stopping"@ || word == "removing"@ || word == "dead"@
            || word == "paused"@)) ==> stop_words(status)
            == "El mandato de reposo se libró, mas la ínsula ha quedado TRABADA en el estado '"@
            + status.unwrap() + STUCK_TAIL@,
        (status matches Some(word) && word != "exited"@ && word != "stopping"@ && word
            != "removing"@ && word != "dead"@ && word != "paused"@) ==> stop_words(status)
            == "El mandato de reposo se libró, mas tras dos minutos y medio la ínsula aún no confirma su descanso (estado '"@
            + status.unwrap() + "'). Consulte vuestra merced /status."@,
        status is None ==> stop_words(status)
            == "El mandato de reposo se libró, mas tras dos minutos y medio la ínsula aún no confirma su descanso (estado '"@
            + "desconocido"@ + "'). Consulte vuestra merced /status."@,
{
    crate::docker::law_what_settles(status, Seq::empty());
}

pub const LIFE_CYCLE: [&'static str; 3] = ["start", "stop", "restart"];

/// The command starts or stops the server.
pub open spec fn life_cycle(command_name: Seq<char>) -> bool {
    exists|i: int| 0 <= i < LIFE_CYCLE@.len() && command_name == (#[trigger] LIFE_CYCLE@[i])@
}

/// The admins hear of failures to start, stop or restart, and of no other.
pub proof fn law_three_commands_start_or_stop(command_name: Seq<char>)
    ensures
        life_cycle(command_name) <==> command_name == "start"@ || command_name == "stop"@
            || command_name == "restart"@,
{
    assert(LIFE_CYCLE@[0]@ == "start"@ && LIFE_CYCLE@[1]@ == "stop"@ && LIFE_CYCLE@[2]@
        == "restart"@);
}

/// What the admins are told, beside the caller, when a command fails: nothing
/// unless it starts or stops the server.
pub fn failure_notice(command_name: &str, error: &str, admin_role_id: u64) -> (r: Option<String>)
    ensures
        crate::text::opt_string(r) == (if life_cycle(command_name@) {
            Some(
                "<@&"@ + crate::text::decimal(admin_role_id as nat) + "> :rotating_light: **/"@
                    + command_name@ + "** ha fracasado: "@ + error@,
            )
        } else {
            None
        }),
{
    let known = LIFE_CYCLE;
    for i in 0..known.len()
        invariant
            known == LIFE_CYCLE,
            forall|j: int| 0 <= j < i ==> command_name@ != (#[trigger] LIFE_CYCLE@[j])@,
    {
        if same(command_name, known[i]) {
            assert(command_name@ == LIFE_CYCLE@[i as int]@);
            let mut out = glue(
                "<@&",
                numeral(admin_role_id as u128).as_str(),
                "> :rotating_light: **/",
            );
            out.append(command_name);
            out.append("** ha fracasado: ");
            out.append(error);
            return Some(out);
        }
    }
    None
}

// ---------------------------------------------------------------------------
// Say
// ---------------------------------------------------------------------------

pub const UNHEARD: &'static str = "Duerme la ínsula; vuestro pregón se pierde en el silencio.";

/// The console command that says something in the game.
pub fn say_order(message: &str) -> (r: String)
    ensures
        r@ == "say "@ + message@,
{
    let mut out = String::from_str("say ");
    out.append(message);
    out
}

/// The reply to `/say`, by whether the server took the command.
pub fn say_reply(message: &str, heard: bool) -> (r: String)
    ensures
        r@ == (if heard {
            "Pregonado a los cuatro vientos: "@ + message@
        } else {
            UNHEARD@
        }),
{
    if heard {
        let mut out = String::from_str("Pregonado a los cuatro vientos: ");
        out.append(message);
        out
    } else {
        String::from_str(UNHEARD)
    }
}

// ---------------------------------------------------------------------------
// Whitelist
// ---------------------------------------------------------------------------

pub const ROLL_OUT_OF_REACH: &'static str = "Duerme la ínsula; para tocar el padrón de caballeros ha de estar despierta.";

/// For players let in by name alone, whom the account service does not know.
/// The length of the name picks the line, so that one player always gets the
/// same.
pub const POBRE_POOL: [&'static str; 4] = [
    ":coin: ¡Regocijaos a medias! **{name}** entra en el padrón, mas por la puerta de servicio: no le halla Mojang en sus registros, que jamás vio un maravedí suyo. Bienvenido sea el pobre.",
    ":coin: Armado caballero queda **{name}**, aunque conste en acta: su cuenta es tan falsa como los gigantes de mi imaginación, y su bolsa más vacía que la despensa de Sancho.",
    ":coin: Admitido sea **{name}** por la vía de los menesterosos. Mojang no lo conoce, y con razón: antes gastaría el hidalgo en yelmos de barbero que este en su propio juego.",
    ":coin: Pasa **{name}** al padrón sin pagar peaje, como quien entra a la venta por el corral. Que nadie se lo eche en cara... salvo yo, que para eso soy el cronista.",
];

pub open spec fn pauper_words(name: Seq<char>) -> Seq<char> {
    crate::text::replace_all(POBRE_POOL@[name.len() as int % 4]@, "{name}"@, name)
}

pub fn pobre_message(name: &str) -> (r: String)
    ensures
        r@ == pauper_words(name@),
{
    proof {
        reveal_strlit("{name}");
    }
    let k: usize = chars_of(name).len() % 4;
    replace(POBRE_POOL[k], "{name}", name)
}

/// Where the name goes in a line for paupers, and how the line begins.
#[verifier::spinoff_prover]
proof fn lemma_pauper_line(k: int) -> (at: int)
    requires
        0 <= k < 4,
    ensures
        7 <= at,
        crate::text::occurs_at(POBRE_POOL@[k]@, "{name}"@, at),
        forall|i: int| 0 <= i < at ==> POBRE_POOL@[k]@[i] != "{name}"@[0],
        "{name}"@.len() > 0,
        POBRE_POOL@[k]@.take(7) == ":coin: "@,
        ":coin: "@.len() == 7,
{
    reveal_strlit("{name}");
    reveal_strlit(":coin: ");
    let line = POBRE_POOL@[k]@;
    let at: int;
    if k == 0 {
        reveal_strlit(":coin: ¡Regocijaos a medias! **{name}** entra en el padrón, mas por la puerta de servicio: no le halla Mojang en sus registros, que jamás vio un maravedí suyo. Bienvenido sea el pobre.");
        at = 31;
    } else if k == 1 {
        reveal_strlit(":coin: Armado caballero queda **{name}**, aunque conste en acta: su cuenta es tan falsa como los gigantes de mi imaginación, y su bolsa más vacía que la despensa de Sancho.");
        at = 32;
    } else if k == 2 {
        reveal_strlit(":coin: Admitido sea **{name}** por la vía de los menesterosos. Mojang no lo conoce, y con razón: antes gastaría el hidalgo en yelmos de barbero que este en su propio juego.");
        at = 22;
    } else {
        reveal_strlit(":coin: Pasa **{name}** al padrón sin pagar peaje, como quien entra a la venta por el corral. Que nadie se lo eche en cara... salvo yo, que para eso soy el cronista.");
        at = 14;
    }
    assert(line.subrange(at, at + 6) == "{name}"@);
    assert(line.take(7) == ":coin: "@);
    at
}

/// Whoever enters by name alone is named, in a line that begins with a coin;
/// the lines take turns by the length of the name.
pub proof fn law_paupers_are_named(name: Seq<char>)
    ensures
        crate::text::contains(pauper_words(name), name),
        crate::text::occurs_at(pauper_words(name), ":coin: "@, 0),
        pauper_words(name) == crate::text::replace_all(
            POBRE_POOL@[name.len() as int % 4]@,
            "{name}"@,
            name,
        ),
{
    let k = name.len() as int % 4;
    let line = POBRE_POOL@[k]@;
    let at = lemma_pauper_line(k);
    crate::text::lemma_replace_front(line, "{name}"@, name, at);
    let all = pauper_words(name);
    assert(all.subrange(at, at + name.len()) == name);
    assert(crate::text::occurs_at(all, name, at));
    assert(all.subrange(0, 7) == line.take(7));
}

pub const ALREADY_LISTED: &'static str = "Sosegaos, vuestra merced: ese caballero ya figura en el padrón desde antaño.";

pub const NOT_LISTED: &'static str = "No hallo a tal caballero en el padrón; nadie puede ser desterrado de donde nunca moró.";

pub const NO_SUCH_NAME: &'static str = "Por más que escudriño los reinos de Mojang, tal nombre no existe. ¿Errata de vuestra pluma, quizá?";

pub const EMPTY_ROLL: &'static str = "El padrón yace virgen, sin caballero alguno. Triste soledad la de esta ínsula.";

pub const ADDED_TAIL: &'static str = "** ha sido armado caballero de la ínsula. Que su pico sea recto y su lana abundante.";

pub const REMOVED_TAIL: &'static str = "** ha sido desterrado del padrón. Que los molinos le sean leves en su exilio.";

/// The name in a reply that a player was added.
pub open spec fn added_name(reply: Seq<char>) -> Option<Seq<char>> {
    crate::text::strip_both(crate::text::trim(reply), "Added "@, " to the whitelist"@)
}

/// The name in a reply that a player was removed.
pub open spec fn removed_name(reply: Seq<char>) -> Option<Seq<char>> {
    crate::text::strip_both(crate::text::trim(reply), "Removed "@, " from the whitelist"@)
}

/// What the server's reply to a whitelist command means, in the hidalgo's
/// words. A reply that is not known is quoted.
pub open spec fn verse(reply: Seq<char>) -> Seq<char> {
    let r = crate::text::trim(reply);
    match (added_name(reply), removed_name(reply)) {
        (Some(name), _) => ":crossed_swords: ¡Regocijaos! **"@ + name + ADDED_TAIL@,
        (None, Some(name)) => ":scroll: Con pesar lo proclamo: **"@ + name + REMOVED_TAIL@,
        (None, None) => if crate::text::contains(r, "already whitelisted"@) {
            ALREADY_LISTED@
        } else if crate::text::contains(r, "not whitelisted"@) {
            NOT_LISTED@
        } else if crate::text::contains(r, "does not exist"@) {
            NO_SUCH_NAME@
        } else {
            match crate::text::second_piece(r, "whitelisted player(s):"@) {
                Some(rest) => ":scroll: **El rollo de los caballeros de la ínsula:** "@
                    + crate::text::trim(rest),
                None => if crate::text::contains(r, "no whitelisted players"@) || r.len() == 0 {
                    EMPTY_ROLL@
                } else {
                    "Responde la ínsula con palabras que este hidalgo no alcanza a versar: *"@ + r
                        + "*"@
                },
            }
        },
    }
}

pub fn quixotify_whitelist(raw: &str) -> (s: String)
    ensures
        s@ == verse(raw@),
{
    proof {
        reveal_strlit("whitelisted player(s):");
    }
    let r = trimmed(raw);
    let r = r.as_str();
    if let Some(name) = between(r, "Added ", " to the whitelist") {
        return glue(":crossed_swords: ¡Regocijaos! **", name.as_str(), ADDED_TAIL);
    }
    if let Some(name) = between(r, "Removed ", " from the whitelist") {
        return glue(":scroll: Con pesar lo proclamo: **", name.as_str(), REMOVED_TAIL);
    }
    if has(r, "already whitelisted") {
        return String::from_str(ALREADY_LISTED);
    }
    if has(r, "not whitelisted") {
        return String::from_str(NOT_LISTED);
    }
    if has(r, "does not exist") {
        return String::from_str(NO_SUCH_NAME);
    }
    if let Some(rest) = after_first(r, "whitelisted player(s):") {
        let mut out = String::from_str(":scroll: **El rollo de los caballeros de la ínsula:** ");
        out.append(trimmed(rest.as_str()).as_str());
        return out;
    }
    if has(r, "no whitelisted players") || r.is_empty() {
        return String::from_str(EMPTY_ROLL);
    }
    glue(
        "Responde la ínsula con palabras que este hidalgo no alcanza a versar: *",
        r,
        "*",
    )
}

/// Whatever the name, the reply that a player was added or removed is put in
/// words that name the player.
pub proof fn law_verses_name_the_player(name: Seq<char>)
    ensures
        verse("Added "@ + name + " to the whitelist"@) == ":crossed_swords: ¡Regocijaos! **"@ + name
            + ADDED_TAIL@,
        verse("Removed "@ + name + " from the whitelist"@)
            == ":scroll: Con pesar lo proclamo: **"@ + name + REMOVED_TAIL@,
{
    reveal_strlit("Added ");
    reveal_strlit(" to the whitelist");
    reveal_strlit("Removed ");
    reveal_strlit(" from the whitelist");
    let added = "Added "@ + name + " to the whitelist"@;
    let removed = "Removed "@ + name + " from the whitelist"@;
    lemma_already_trim(added);
    lemma_already_trim(removed);
    lemma_between(name, "Added "@, " to the whitelist"@);
    lemma_between(name, "Removed "@, " from the whitelist"@);
    assert(removed[0] != "Added "@[0]);
    assert(added_name(removed) is None) by {
        if removed.len() >= 6 {
            assert(removed.take(6)[0] != "Added "@[0]);
        }
    }
}

/// How any other reply is put, by what stands in it: that the player is listed
/// already, is not listed or does not exist, then the roster, then that there
/// is nobody; and a reply with none of this is quoted.
pub proof fn law_other_replies_have_their_verse(reply: Seq<char>)
    requires
        added_name(reply) is None,
        removed_name(reply) is None,
    ensures
        ({
            let r = crate::text::trim(reply);
            let listed = crate::text::contains(r, "already whitelisted"@);
            let unlisted = crate::text::contains(r, "not whitelisted"@);
            let unknown = crate::text::contains(r, "does not exist"@);
            let roster = crate::text::contains(r, "whitelisted player(s):"@);
            let nobody = crate::text::contains(r, "no whitelisted players"@) || r.len() == 0;
            &&& listed ==> verse(reply)
                == "Sosegaos, vuestra merced: ese caballero ya figura en el padrón desde antaño."@
            &&& !listed && unlisted ==> verse(reply)
                == "No hallo a tal caballero en el padrón; nadie puede ser desterrado de donde nunca moró."@
            &&& !listed && !unlisted && unknown ==> verse(reply)
                == "Por más que escudriño los reinos de Mojang, tal nombre no existe. ¿Errata de vuestra pluma, quizá?"@
            &&& !listed && !unlisted && !unknown && roster ==> verse(reply)
                == ":scroll: **El rollo de los caballeros de la ínsula:** "@ + crate::text::trim(
                crate::text::second_piece(r, "whitelisted player(s):"@).unwrap(),
            )
            &&& !listed && !unlisted && !unknown && !roster && nobody ==> verse(reply)
                == "El padrón yace virgen, sin caballero alguno. Triste soledad la de esta ínsula."@
            &&& !listed && !unlisted && !unknown && !roster && !nobody ==> verse(reply)
                == "Responde la ínsula con palabras que este hidalgo no alcanza a versar: *"@ + r
                + "*"@
        }),
{
    reveal_strlit("whitelisted player(s):");
    crate::text::law_second_piece(crate::text::trim(reply), "whitelisted player(s):"@);
}

/// Which replies tell that a player was added or removed: those that, white
/// space at the ends aside, are the server's sentence around the name.
pub proof fn law_which_replies_name_a_player(reply: Seq<char>, name: Seq<char>)
    ensures
        added_name(reply) == Some(name) <==> crate::text::trim(reply) == "Added "@ + (name
            + " to the whitelist"@),
        removed_name(reply) == Some(name) <==> crate::text::trim(reply) == "Removed "@ + (name
            + " from the whitelist"@),
        crate::text::trim(reply) == "Added "@ + (name + " to the whitelist"@) ==> verse(reply)
            == ":crossed_swords: ¡Regocijaos! **"@ + name
            + "** ha sido armado caballero de la ínsula. Que su pico sea recto y su lana abundante."@,
        crate::text::trim(reply) == "Removed "@ + (name + " from the whitelist"@) ==> verse(reply)
            == ":scroll: Con pesar lo proclamo: **"@ + name
            + "** ha sido desterrado del padrón. Que los molinos le sean leves en su exilio."@,
{
    let r = crate::text::trim(reply);
    lemma_affixes(r, "Added "@, " to the whitelist"@, name);
    lemma_affixes(r, "Removed "@, " from the whitelist"@, name);
    reveal_strlit("Added ");
    reveal_strlit("Removed ");
    if added_name(reply) is Some && removed_name(reply) is Some {
        assert(r.subrange(0, 6)[0] == 'A');
        assert(r.subrange(0, 8)[0] == 'R');
    }
}

proof fn lemma_affixes(r: Seq<char>, head: Seq<char>, tail: Seq<char>, name: Seq<char>)
    ensures
        crate::text::strip_both(r, head, tail) == Some(name) <==> r == head + (name + tail),
{
    crate::text::law_affixes(r, head, name + tail);
    if crate::text::strip_prefix(r, head) is Some {
        let rest = crate::text::strip_prefix(r, head).unwrap();
        crate::text::law_affixes(r, head, rest);
        crate::text::law_affixes(rest, tail, name);
        assert(rest == r.skip(head.len() as int));
        if r == head + (name + tail) {
            assert(rest == name + tail);
        }
    }
}

proof fn lemma_already_trim(s: Seq<char>)
    requires
        s.len() > 0,
        !crate::text::white(s[0]),
        !crate::text::white(s.last()),
    ensures
        crate::text::trim(s) == s,
{
    assert(crate::text::trim_start(s) == s);
    assert(crate::text::trim_end(s) == s);
}

proof fn lemma_between(name: Seq<char>, head: Seq<char>, tail: Seq<char>)
    ensures
        crate::text::strip_both(head + name + tail, head, tail) == Some(name),
{
    let all = head + name + tail;
    assert(all.take(head.len() as int) == head);
    assert(all.skip(head.len() as int) == name + tail);
    assert((name + tail).skip(name.len() as int) == tail);
    assert((name + tail).take(name.len() as int) == name);
}

/// The same operation on the roster that goes by name alone, for a whitelist
/// command that adds or removes a player.
pub open spec fn by_name(cmd: Seq<char>) -> Option<Seq<char>> {
    match crate::text::strip_prefix(cmd, "whitelist "@) {
        Some(rest) => {
            let i = crate::text::index_of(rest, ' ');
            let op = rest.take(i);
            if i < rest.len() && (op == "add"@ || op == "remove"@) {
                Some("easywhitelist "@ + op + " "@ + rest.skip(i + 1))
            } else {
                None
            }
        },
        None => None,
    }
}

pub fn easywhitelist_fallback(cmd: &str) -> (r: Option<String>)
    ensures
        crate::text::opt_string(r) == by_name(cmd@),
{
    match without_prefix(cmd, "whitelist ") {
        Some(rest) => match split_once(rest.as_str(), ' ') {
            Some((op, target)) => if same(op.as_str(), "add") || same(op.as_str(), "remove") {
                let mut out = glue("easywhitelist ", op.as_str(), " ");
                out.append(target.as_str());
                Some(out)
            } else {
                None
            },
            None => None,
        },
        None => None,
    }
}

/// Adding and removing a player falls back to the same operation on the same
/// name, whatever the name.
pub proof fn law_fallback_keeps_operation_and_name(name: Seq<char>)
    ensures
        by_name("whitelist add "@ + name) == Some("easywhitelist add "@ + name),
        by_name("whitelist remove "@ + name) == Some("easywhitelist remove "@ + name),
{
    reveal_strlit("whitelist ");
    reveal_strlit("add");
    reveal_strlit("remove");
    reveal_strlit(" ");
    reveal_strlit("whitelist add ");
    reveal_strlit("whitelist remove ");
    reveal_strlit("easywhitelist ");
    reveal_strlit("easywhitelist add ");
    reveal_strlit("easywhitelist remove ");
    lemma_by_name("add"@, "whitelist add "@, "easywhitelist add "@, name);
    lemma_by_name("remove"@, "whitelist remove "@, "easywhitelist remove "@, name);
}

/// No other command falls back: one that does adds or removes a player.
pub proof fn law_nothing_else_falls_back(cmd: Seq<char>)
    ensures
        by_name(cmd) is Some ==> crate::text::occurs_at(cmd, "whitelist add "@, 0)
            || crate::text::occurs_at(cmd, "whitelist remove "@, 0),
{
    reveal_strlit("whitelist ");
    reveal_strlit("add");
    reveal_strlit("remove");
    reveal_strlit("whitelist add ");
    reveal_strlit("whitelist remove ");
    if by_name(cmd) is Some {
        let rest = cmd.skip(10);
        let i = crate::text::index_of(rest, ' ');
        crate::text::lemma_index_of(rest, ' ');
        crate::text::law_affixes(cmd, "whitelist "@, rest);
        if rest.take(i) == "add"@ {
            assert(cmd.subrange(0, 14) =~= "whitelist add "@) by {
                assert forall|k: int| 0 <= k < 14 implies cmd[k] == "whitelist add "@[k] by {
                    if k < 10 {
                        assert(cmd[k] == "whitelist "@[k]);
                    } else if k < 13 {
                        assert(cmd[k] == rest.take(i)[k - 10]);
                    }
                }
            }
        } else {
            assert(cmd.subrange(0, 17) =~= "whitelist remove "@) by {
                assert forall|k: int| 0 <= k < 17 implies cmd[k] == "whitelist remove "@[k] by {
                    if k < 10 {
                        assert(cmd[k] == "whitelist "@[k]);
                    } else if k < 16 {
                        assert(cmd[k] == rest.take(i)[k - 10]);
                    }
                }
            }
        }
    }
}

proof fn lemma_by_name(op: Seq<char>, cmd: Seq<char>, alt: Seq<char>, name: Seq<char>)
    requires
        op == "add"@ || op == "remove"@,
        !op.contains(' '),
        " "@ =~= seq![' '],
        cmd =~= "whitelist "@ + op + seq![' '],
        alt =~= "easywhitelist "@ + op + seq![' '],
    ensures
        by_name(cmd + name) == Some(alt + name),
{
    let all = cmd + name;
    let n = "whitelist "@.len() as int;
    let rest = op + seq![' '] + name;
    assert(all.take(n) == "whitelist "@);
    assert(all.skip(n) == rest);
    assert forall|j: int| 0 <= j < op.len() implies rest[j] != ' ' by {
        assert(op.contains(rest[j]));
    }
    crate::text::lemma_index_of_unique(rest, ' ', op.len() as int);
    assert(rest.take(op.len() as int) == op);
    assert(rest.skip(op.len() as int + 1) == name);
    assert("easywhitelist "@ + op + " "@ + name == alt + name);
}

/// The command that adds a player to the whitelist.
pub fn add_order(name: &str) -> (r: String)
    ensures
        r@ == "whitelist add "@ + name@,
{
    let mut out = String::from_str("whitelist add ");
    out.append(name);
    out
}

/// The command that removes a player from the whitelist.
pub fn remove_order(name: &str) -> (r: String)
    ensures
        r@ == "whitelist remove "@ + name@,
{
    let mut out = String::from_str("whitelist remove ");
    out.append(name);
    out
}

/// The command to try next after the server's reply to a whitelist command:
/// the account service may not know a player who can be let in by name.
pub fn whitelist_retry(cmd: &str, reply: &str) -> (r: Option<String>)
    ensures
        crate::text::opt_string(r) == (if crate::text::contains(reply@, "does not exist"@) {
            by_name(cmd@)
        } else {
            None
        }),
{
    if has(reply, "does not exist") {
        easywhitelist_fallback(cmd)
    } else {
        None
    }
}

/// The answer to a whitelist command: by the second reply where there is one,
/// and then with a jab at whoever was let in by name alone.
pub open spec fn whitelist_words(first: Seq<char>, second: Option<Seq<char>>) -> Seq<char> {
    match second {
        Some(reply) => match added_name(reply) {
            Some(name) => pauper_words(name),
            None => verse(reply),
        },
        None => verse(first),
    }
}

pub fn whitelist_reply(first: &str, second: Option<&str>) -> (r: String)
    ensures
        r@ == whitelist_words(first@, crate::text::opt(second)),
{
    match second {
        Some(reply) => match between(trimmed(reply).as_str(), "Added ", " to the whitelist") {
            Some(name) => pobre_message(name.as_str()),
            None => quixotify_whitelist(reply),
        },
        None => quixotify_whitelist(first),
    }
}

/// The last reply is the one that is answered; and who was let in by name alone,
/// at the second try, is told apart from who was let in at the first.
pub proof fn law_the_last_reply_is_answered(first: Seq<char>, second: Seq<char>, name: Seq<char>)
    ensures
        whitelist_words(first, None) == verse(first),
        whitelist_words(first, Some("Added "@ + name + " to the whitelist"@)) == pauper_words(name),
        added_name(second) is None ==> whitelist_words(first, Some(second)) == verse(second),
{
    reveal_strlit("Added ");
    reveal_strlit(" to the whitelist");
    let added = "Added "@ + name + " to the whitelist"@;
    lemma_already_trim(added);
    lemma_between(name, "Added "@, " to the whitelist"@);
}

// ---------------------------------------------------------------------------
// Backup
// ---------------------------------------------------------------------------

pub const BACKUP_ALREADY: &'static str = "Ya se labra un respaldo, vuestra merced; no hay dos encomiendas a la vez.";

pub const BACKUP_VANISHED: &'static str = "El contenedor del respaldo se ha desvanecido como castillo encantado (¿fue recreado a mitad de faena?); acuda vuestra merced al castillo (host).";

pub const BACKUP_LOST: &'static str = "Se ha perdido el contacto con la API de Docker mientras vigilaba el respaldo; acuda vuestra merced al castillo (host).";

pub const BACKUP_SLOW: &'static str = "El respaldo aún se afana tras diez minutos; acuda vuestra merced al castillo (host) a inquirir.";

pub const BACKUP_DONE: &'static str = ":white_check_mark: La encomienda de respaldo se ha cumplido con honor";

pub const BACKUP_FAILED: &'static str = ":rotating_light: ¡La encomienda de respaldo ha FRACASADO!";

/// How often a backup is looked at before it is left to itself.
pub const MAX_POLLS: u32 = 300;

/// Failed looks in a row after which contact is lost.
pub const MAX_ERRORS: u32 = 5;

/// One look at the backup container.
#[derive(Debug, Clone, Copy, PartialEq, Eq, Structural)]
pub enum Look {
    Running,
    Stopped { exit_code: Option<i64> },
    Gone,
    Failed,
}

/// What to do after a look.
#[derive(Debug, Clone, Copy, PartialEq, Eq, Structural)]
pub enum BackupStep {
    /// Look again.
    Wait,
    /// Fetch the log and report the exit code.
    Report { code: i64 },
    Vanished,
    Lost,
    Slow,
}

/// The watch over one backup: looks so far, and failed ones in a row.
#[derive(Debug, Clone, Copy, PartialEq, Eq, Structural)]
pub struct BackupVigil {
    pub polls: u32,
    pub errors: u32,
}

/// What to do after a look, with the given watch so far.
pub open spec fn vigil_step(v: BackupVigil, look: Look) -> BackupStep {
    match look {
        Look::Stopped { exit_code } => BackupStep::Report {
            code: match exit_code {
                Some(code) => code,
                None => -1i64,
            },
        },
        Look::Gone => BackupStep::Vanished,
        Look::Failed if v.errors + 1 >= MAX_ERRORS => BackupStep::Lost,
        _ => if v.polls + 1 >= MAX_POLLS {
            BackupStep::Slow
        } else {
            BackupStep::Wait
        },
    }
}

impl BackupVigil {
    pub fn new() -> (v: BackupVigil)
        ensures
            v == (BackupVigil { polls: 0, errors: 0 }),
    {
        BackupVigil { polls: 0, errors: 0 }
    }

    /// Takes in one look and says what to do.
    pub fn observe(&mut self, look: Look) -> (step: BackupStep)
        requires
            old(self).polls < MAX_POLLS,
            old(self).errors < MAX_ERRORS,
        ensures
            step == vigil_step(*old(self), look),
            final(self).polls == old(self).polls + 1,
            final(self).errors == (if look is Failed {
                old(self).errors + 1
            } else {
                0
            }),
            step is Wait ==> final(self).polls < MAX_POLLS && final(self).errors < MAX_ERRORS,
    {
        self.polls = self.polls + 1;
        match look {
            Look::Failed => {
                self.errors = self.errors + 1;
                if self.errors >= MAX_ERRORS {
                    return BackupStep::Lost;
                }
            },
            Look::Stopped { exit_code } => {
                self.errors = 0;
                let code: i64 = match exit_code {
                    Some(code) => code,
                    None => -1,
                };
                return BackupStep::Report { code };
            },
            Look::Gone => {
                self.errors = 0;
                return BackupStep::Vanished;
            },
            Look::Running => {
                self.errors = 0;
            },
        }
        if self.polls >= MAX_POLLS {
            BackupStep::Slow
        } else {
            BackupStep::Wait
        }
    }
}

/// What is said when the watch ends before the backup does.
pub open spec fn vigil_words(step: BackupStep) -> Option<Seq<char>> {
    match step {
        BackupStep::Vanished => Some(BACKUP_VANISHED@),
        BackupStep::Lost => Some(BACKUP_LOST@),
        BackupStep::Slow => Some(BACKUP_SLOW@),
        _ => None,
    }
}

impl BackupStep {
    pub fn farewell(self) -> (r: Option<&'static str>)
        ensures
            crate::text::opt(r) == vigil_words(self),
    {
        match self {
            BackupStep::Vanished => Some(BACKUP_VANISHED),
            BackupStep::Lost => Some(BACKUP_LOST),
            BackupStep::Slow => Some(BACKUP_SLOW),
            _ => None,
        }
    }
}

/// What one look at the backup leads to: a report with the exit code once it has
/// stopped, an end when it is gone, after the fifth failed look in a row, or
/// after the three-hundredth look of all, and another look otherwise.
pub proof fn law_what_a_look_leads_to(v: BackupVigil, look: Look)
    ensures
        ({
            let step = vigil_step(v, look);
            let lost = look is Failed && v.errors >= 4;
            let late = v.polls >= 299;
            &&& look matches Look::Stopped { exit_code } ==> match exit_code {
                Some(code) => step == (BackupStep::Report { code }),
                None => step == (BackupStep::Report { code: -1i64 }),
            }
            &&& look is Gone <==> step is Vanished
            &&& lost <==> step is Lost
            &&& step is Slow <==> late && (look is Running || (look is Failed && !lost))
            &&& step is Wait <==> !late && (look is Running || (look is Failed && !lost))
        }),
{
}

/// What is said at an end without a report.
pub proof fn law_every_end_has_its_words(step: BackupStep)
    ensures
        step is Vanished ==> vigil_words(step) == Some(
            "El contenedor del respaldo se ha desvanecido como castillo encantado (¿fue recreado a mitad de faena?); acuda vuestra merced al castillo (host)."@,
        ),
        step is Lost ==> vigil_words(step) == Some(
            "Se ha perdido el contacto con la API de Docker mientras vigilaba el respaldo; acuda vuestra merced al castillo (host)."@,
        ),
        step is Slow ==> vigil_words(step) == Some(
            "El respaldo aún se afana tras diez minutos; acuda vuestra merced al castillo (host) a inquirir."@,
        ),
        step is Wait || step is Report ==> vigil_words(step) is None,
{
}

/// The watch after the given looks.
pub open spec fn vigil_after(looks: Seq<Look>) -> BackupVigil
    decreases looks.len(),
{
    if looks.len() == 0 {
        BackupVigil { polls: 0, errors: 0 }
    } else {
        let before = vigil_after(looks.drop_last());
        BackupVigil {
            polls: (before.polls + 1) as u32,
            errors: if looks.last() is Failed {
                (before.errors + 1) as u32
            } else {
                0
            },
        }
    }
}

/// Every look so far asked for another.
pub open spec fn waited(looks: Seq<Look>) -> bool {
    forall|k: int|
        0 <= k < looks.len() ==> vigil_step(#[trigger] vigil_after(looks.take(k)), looks[k]) is Wait
}

/// A watch that goes on has seen fewer than [`MAX_POLLS`] looks, no end of the
/// backup, and never [`MAX_ERRORS`] failed looks in a row.
pub proof fn law_a_vigil_ends(looks: Seq<Look>)
    requires
        waited(looks),
    ensures
        vigil_after(looks).polls == looks.len() < MAX_POLLS,
        vigil_after(looks).errors < MAX_ERRORS,
        forall|k: int|
            0 <= k < looks.len() ==> (#[trigger] looks[k] is Running || looks[k] is Failed),
        looks.len() >= MAX_ERRORS ==> exists|k: int|
            looks.len() - MAX_ERRORS <= k < looks.len() && !(#[trigger] looks[k] is Failed),
    decreases looks.len(),
{
    if looks.len() > 0 {
        let before = looks.drop_last();
        let n = before.len() as int;
        assert(looks.take(n) == before);
        assert forall|k: int| 0 <= k < before.len() implies vigil_step(
            #[trigger] vigil_after(before.take(k)),
            before[k],
        ) is Wait by {
            assert(before.take(k) == looks.take(k));
            assert(vigil_step(vigil_after(looks.take(k)), looks[k]) is Wait);
        }
        law_a_vigil_ends(before);
        assert(vigil_step(vigil_after(looks.take(n)), looks[n]) is Wait);
        assert forall|k: int| 0 <= k < looks.len() implies (#[trigger] looks[k] is Running
            || looks[k] is Failed) by {
            if k < n {
                assert(before[k] is Running || before[k] is Failed);
            }
        }
    }
    lemma_failed_in_a_row(looks);
}

/// The failed looks at the end are the ones that are counted.
proof fn lemma_failed_in_a_row(looks: Seq<Look>)
    requires
        looks.len() < u32::MAX,
    ensures
        vigil_after(looks).polls == looks.len(),
        vigil_after(looks).errors <= looks.len(),
        forall|k: int|
            looks.len() - vigil_after(looks).errors <= k < looks.len()
                ==> #[trigger] looks[k] is Failed,
        vigil_after(looks).errors < looks.len() ==> !(looks[looks.len() - vigil_after(looks).errors
            - 1] is Failed),
    decreases looks.len(),
{
    if looks.len() > 0 {
        let before = looks.drop_last();
        lemma_failed_in_a_row(before);
        assert forall|k: int|
            looks.len() - vigil_after(looks).errors <= k < looks.len() implies #[trigger] looks[k]
            is Failed by {
            if k < before.len() {
                assert(before[k] is Failed);
            }
        }
    }
}

/// The report of a backup that has ended.
pub open spec fn backup_words(code: i64, logs: Seq<char>) -> Seq<char> {
    (if code == 0 {
        BACKUP_DONE@
    } else {
        BACKUP_FAILED@
    }) + " (código de salida "@ + crate::text::decimal_int(code as int) + ")\n```\n"@ + logs
        + "\n```"@
}

pub fn backup_report(code: i64, logs: &str) -> (r: String)
    ensures
        r@ == backup_words(code, logs@),
{
    let verdict = if code == 0 {
        BACKUP_DONE
    } else {
        BACKUP_FAILED
    };
    let mut out = glue(verdict, " (código de salida ", numeral_signed(code).as_str());
    out.append(")\n```\n");
    out.append(logs);
    out.append("\n```");
    out
}

/// A backup is reported as done exactly if its exit code is zero, and as failed
/// exactly if it is not; either way the code and the log are told.
pub proof fn law_only_code_zero_is_success(code: i64, logs: Seq<char>)
    ensures
        code == 0 <==> crate::text::occurs_at(backup_words(code, logs), BACKUP_DONE@, 0),
        code != 0 <==> crate::text::occurs_at(backup_words(code, logs), BACKUP_FAILED@, 0),
        code == 0 ==> backup_words(code, logs)
            == ":white_check_mark: La encomienda de respaldo se ha cumplido con honor"@
            + " (código de salida "@ + seq!['0'] + ")\n```\n"@ + logs + "\n```"@,
        code != 0 ==> backup_words(code, logs)
            == ":rotating_light: ¡La encomienda de respaldo ha FRACASADO!"@ + " (código de salida "@
            + crate::text::decimal_int(code as int) + ")\n```\n"@ + logs + "\n```"@,
{
    reveal_strlit(":white_check_mark: La encomienda de respaldo se ha cumplido con honor");
    reveal_strlit(":rotating_light: ¡La encomienda de respaldo ha FRACASADO!");
    crate::text::law_numerals(0, code as int);
    let said = backup_words(code, logs);
    let (done, failed) = (BACKUP_DONE@, BACKUP_FAILED@);
    if code == 0 {
        assert(said.subrange(0, done.len() as int) == done);
        if crate::text::occurs_at(said, failed, 0) {
            assert(said.subrange(0, failed.len() as int)[1] == said[1]);
        }
    } else {
        assert(said.subrange(0, failed.len() as int) == failed);
        if crate::text::occurs_at(said, done, 0) {
            assert(said.subrange(0, done.len() as int)[1] == said[1]);
        }
    }
}

// ---------------------------------------------------------------------------
// The wheel
// ---------------------------------------------------------------------------

pub const UNFIT_NAME: &'static str = "Ese nombre no calza con la usanza de los hidalgos de Minecraft (letras, dígitos y guion bajo, hasta 16 caracteres). Rehúso invocar la rueda con tal nombre.";

pub const RCON_FAILED: &'static str = "\n:warning: Alguna orden de RCON no obtuvo respuesta; quizá la ínsula duerme o anda a medio despertar.";

/// Spins the wheel as `/fortuna` was asked to: for the effect `suerte` if
/// there is one, and by the hours otherwise. A name that is not valid and an
/// effect that is not known are refused, without a roll.
pub fn fortuna_spin<R: RollSource>(
    jugador: &str,
    horas: u32,
    suerte: Option<&str>,
    rng: &mut R,
) -> (r: Result<Spin, String>)
    requires
        old(rng).ready(),
    ensures
        final(rng).ready(),
        !crate::patterns::username(jugador@) ==> (r matches Err(words) && words@ == UNFIT_NAME@
            && *final(rng) == *old(rng)),
        crate::patterns::username(jugador@) ==> match suerte {
            Some(id) => match r {
                Ok(s) => exists|i: int, c: u32|
                    #![trigger crate::fortuna::spun(jugador@, i, c)]
                    crate::fortuna::named(id@, i) && R::rolls(*old(rng), *final(rng), c) && s@
                        == crate::fortuna::spun(jugador@, i, c),
                Err(words) => {
                    &&& forall|i: int| !crate::fortuna::named(id@, i)
                    &&& words@ == "No hallo tal suerte en el sino de esta rueda: `"@ + id@
                        + "` no es un efecto conocido."@
                    &&& *final(rng) == *old(rng)
                },
            },
            None => r matches Ok(s) && exists|m: R, n: R, a: u32, b: u32, c: u32|
                #![trigger R::rolls(*old(rng), m, a), R::rolls(m, n, b), R::rolls(n, *final(rng), c)]
                R::rolls(*old(rng), m, a) && R::rolls(m, n, b) && R::rolls(n, *final(rng), c) && s@
                    == crate::fortuna::outcome(jugador@, horas, a, b, c),
        },
{
    if !valid_player_name(jugador) {
        return Err(String::from_str(UNFIT_NAME));
    }
    match suerte {
        Some(id) => match spin_forced(jugador, id, rng) {
            Some(s) => Ok(s),
            None => Err(
                glue(
                    "No hallo tal suerte en el sino de esta rueda: `",
                    id,
                    "` no es un efecto conocido.",
                ),
            ),
        },
        None => Ok(spin(jugador, horas, rng)),
    }
}

/// The console commands that carry out a spin, in order: first it is said in
/// the game.
pub fn wheel_orders(s: &Spin) -> (r: Vec<String>)
    ensures
        crate::text::views(r@) == seq!["say "@ + s@.game_msg] + s@.commands,
{
    let mut r: Vec<String> = Vec::new();
    let first = say_order(s.game_msg.as_str());
    let ghost lead = seq![first@];
    r.push(first);
    assert(crate::text::views(r@) == lead + s@.commands.take(0));
    for k in 0..s.commands.len()
        invariant
            lead == seq!["say "@ + s@.game_msg],
            crate::text::views(r@) == lead + s@.commands.take(k as int),
    {
        let ghost before = r@;
        let order = s.commands[k].clone();
        r.push(order);
        assert(crate::text::views(r@) == crate::text::views(before).push(order@));
        assert(s@.commands.take(k + 1) == s@.commands.take(k as int).push(order@));
    }
    assert(s@.commands.take(s@.commands.len() as int) == s@.commands);
    r
}

/// The reply to `/fortuna`: the spin announced, the effect if it was forced,
/// and a warning if a console command failed.
pub fn fortuna_reply(s: &Spin, suerte: Option<&str>, any_failed: bool) -> (r: String)
    ensures
        r@ == s@.discord_msg + (match suerte {
            Some(id) => "\n*(suerte: "@ + id@ + ")*"@,
            None => Seq::empty(),
        }) + (if any_failed {
            RCON_FAILED@
        } else {
            Seq::empty()
        }),
{
    let mut out = s.discord_msg.clone();
    if let Some(id) = suerte {
        out.append(glue("\n*(suerte: ", id, ")*").as_str());
    }
    if any_failed {
        out.append(RCON_FAILED);
    }
    out
}


} // verus!
