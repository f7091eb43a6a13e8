//! One round of the watch: what the bot says, whom it pages and for whom it
//! spins the wheel, given what a poll has found.

use vstd::prelude::*;
use crate::chronicle::{session_message, SessionTracker};
use crate::clock::Moment;
use crate::docker::{word_or, ContainerStatus};
use crate::fortuna::{spin, valid_player_name, RollSource, Spin};
use crate::heraldo::Herald;
use crate::monitor::{
    chronicle_due, classify, deploy_round_hours, BackupEvent, BackupWatch, Damper, Escalation,
    ServerState,
};
use crate::parse::parse_list;
use crate::text::{as_slice, glue, numeral, numeral_signed};

verus! {

// ---------------------------------------------------------------------------
// Words
// ---------------------------------------------------------------------------

pub const UP: &'static str = ":green_circle: ¡En pie está la ínsula! Presta para recibir a sus caballeros.";

pub const STARTING: &'static str = ":yellow_circle: La ínsula despereza sus engranajes; aguarde vuestra merced, que ya despierta.";

pub const UNHEALTHY: &'static str = ":orange_circle: La ínsula sufre de melancolía en sus engranajes (el tick loop flaquea). Considere vuestra merced un /restart.";

pub const DOWN: &'static str = ":red_circle: ¡Ha caído la ínsula! Los follones y malandrines han triunfado... por ahora.";

pub const WEDGED_HEAD: &'static str = ":skull: ¡La ínsula ha quedado TRABADA! Podman la reporta en el estado '";

pub const WEDGED_TAIL: &'static str = "': ni /start ni /restart pueden ya desatascarla — es un mal encantamiento en sus entrañas, no un reposo. El vigía del castillo (host) la reconstruirá en pocos minutos.";

pub const UNSTABLE: &'static str = ":warning: ¡La ínsula tiembla, vuestra merced! Cae y se alza sin cesar, como aspa de molino en tormenta. Un mal presagio: acuda alguien del consejo a mirar los logs.";

pub const STILL_WEDGED: &'static str = "> :rotating_light: La ínsula sigue TRABADA hace ";

pub const STILL_WEDGED_STATUS: &'static str = " minutos (podman: estado '";

pub const STILL_WEDGED_TAIL: &'static str = "'). Ni /start ni /restart la remedian; el vigía del castillo obrará, mas acuda vuestra merced si tarda.";

pub const STILL_DOWN: &'static str = "> :rotating_light: La ínsula lleva ";

pub const STILL_DOWN_STATE: &'static str = " minutos sin levantarse (";

pub const STILL_DOWN_TAIL: &'static str = "). Acuda alguien del consejo a mirar los logs; este hidalgo no callará mientras dure la caída.";

pub const BACKUP_FAILED_HEAD: &'static str = ":rotating_light: ¡La encomienda de respaldo ha FRACASADO con código ";

pub const BACKUP_FAILED_TAIL: &'static str = "! Acuda vuestra merced presto.";

pub const DEPLOY_ROUND: &'static str = ":ferris_wheel: Nueva singladura del código, y la Rueda quiere estrenarla: gira una vez por cada caballero presente.";

/// What is said when a state is confirmed.
pub open spec fn transition_words(state: ServerState, status: Option<Seq<char>>) -> Seq<char> {
    match state {
        ServerState::Up => UP@,
        ServerState::Starting => STARTING@,
        ServerState::Unhealthy => UNHEALTHY@,
        ServerState::Down => DOWN@,
        ServerState::Wedged => WEDGED_HEAD@ + crate::docker::status_word(status, "desconocido"@)
            + WEDGED_TAIL@,
    }
}

pub fn transition_message(state: ServerState, status: Option<&str>) -> (r: String)
    ensures
        r@ == transition_words(state, crate::text::opt(status)),
{
    match state {
        ServerState::Up => String::from_str(UP),
        ServerState::Starting => String::from_str(STARTING),
        ServerState::Unhealthy => String::from_str(UNHEALTHY),
        ServerState::Down => String::from_str(DOWN),
        ServerState::Wedged => glue(WEDGED_HEAD, word_or(status, "desconocido"), WEDGED_TAIL),
    }
}

/// The name of a state.
pub open spec fn state_name(state: ServerState) -> Seq<char> {
    match state {
        ServerState::Up => "Up"@,
        ServerState::Starting => "Starting"@,
        ServerState::Unhealthy => "Unhealthy"@,
        ServerState::Down => "Down"@,
        ServerState::Wedged => "Wedged"@,
    }
}

fn name_of(state: ServerState) -> (r: &'static str)
    ensures
        r@ == state_name(state),
{
    match state {
        ServerState::Up => "Up",
        ServerState::Starting => "Starting",
        ServerState::Unhealthy => "Unhealthy",
        ServerState::Down => "Down",
        ServerState::Wedged => "Wedged",
    }
}

/// The whole minutes in a length of time.
pub open spec fn whole_minutes(nanos: int) -> nat {
    (nanos / crate::clock::seconds(1) / 60) as nat
}

/// The mention of a role.
pub open spec fn mention(role_id: u64) -> Seq<char> {
    "<@&"@ + crate::text::decimal(role_id as nat)
}

/// What a page says of a state that has lasted for `nanos`.
pub open spec fn page_words(
    state: ServerState,
    nanos: int,
    status: Option<Seq<char>>,
    admin_role_id: u64,
) -> Seq<char> {
    if state == ServerState::Wedged {
        mention(admin_role_id) + STILL_WEDGED@ + crate::text::decimal(whole_minutes(nanos))
            + STILL_WEDGED_STATUS@ + crate::docker::status_word(status, "desconocido"@)
            + STILL_WEDGED_TAIL@
    } else {
        mention(admin_role_id) + STILL_DOWN@ + crate::text::decimal(whole_minutes(nanos))
            + STILL_DOWN_STATE@ + state_name(state) + STILL_DOWN_TAIL@
    }
}

pub fn escalation_message(esc: Escalation, status: Option<&str>, admin_role_id: u64) -> (r: String)
    ensures
        r@ == page_words(esc.state, esc.elapsed@, crate::text::opt(status), admin_role_id),
{
    let minutes: u128 = esc.elapsed.whole_secs() / 60;
    let mut out = String::from_str("<@&");
    out.append(numeral(admin_role_id as u128).as_str());
    if let ServerState::Wedged = esc.state {
        out.append(STILL_WEDGED);
        out.append(numeral(minutes).as_str());
        out.append(STILL_WEDGED_STATUS);
        out.append(word_or(status, "desconocido"));
        out.append(STILL_WEDGED_TAIL);
    } else {
        out.append(STILL_DOWN);
        out.append(numeral(minutes).as_str());
        out.append(STILL_DOWN_STATE);
        out.append(name_of(esc.state));
        out.append(STILL_DOWN_TAIL);
    }
    out
}

pub fn backup_failed_message(code: i64) -> (r: String)
    ensures
        r@ == BACKUP_FAILED_HEAD@ + crate::text::decimal_int(code as int) + BACKUP_FAILED_TAIL@,
{
    glue(BACKUP_FAILED_HEAD, numeral_signed(code).as_str(), BACKUP_FAILED_TAIL)
}

// ---------------------------------------------------------------------------
// The watch
// ---------------------------------------------------------------------------

/// A message about the server. A page also mentions the admins.
#[derive(Debug, Clone, PartialEq, Eq)]
pub enum Notice {
    Say(String),
    Page(String),
}

pub enum NoticeView {
    Say(Seq<char>),
    Page(Seq<char>),
}

impl View for Notice {
    type V = NoticeView;

    open spec fn view(&self) -> NoticeView {
        match *self {
            Notice::Say(s) => NoticeView::Say(s@),
            Notice::Page(s) => NoticeView::Page(s@),
        }
    }
}

/// Something to do about the players.
#[derive(Debug, Clone, PartialEq, Eq)]
pub enum Turn {
    Say(String),
    Spin { player: String, hours: u32 },
}

pub enum TurnView {
    Say(Seq<char>),
    Spin(Seq<char>, int),
}

impl View for Turn {
    type V = TurnView;

    open spec fn view(&self) -> TurnView {
        match *self {
            Turn::Say(s) => TurnView::Say(s@),
            Turn::Spin { player, hours } => TurnView::Spin(player@, hours as int),
        }
    }
}

/// What the watch remembers between rounds.
#[verifier::ext_equal]
pub struct WatchView {
    pub damper: crate::monitor::DamperView,
    /// The last round found the backup running.
    pub backing_up: bool,
    pub sessions: crate::chronicle::Sessions,
    /// The log lines that were proclaimed.
    pub seen: Set<Seq<char>>,
    /// The wheel is still to be spun for a new build.
    pub deploy_round: bool,
}

pub struct Watch {
    damper: Damper,
    backups: BackupWatch,
    sessions: SessionTracker,
    herald: Herald,
    deploy_round: bool,
}

impl View for Watch {
    type V = WatchView;

    closed spec fn view(&self) -> WatchView {
        WatchView {
            damper: self.damper@,
            backing_up: self.backups@,
            sessions: self.sessions@,
            seen: self.herald@,
            deploy_round: self.deploy_round,
        }
    }
}

/// The state that a poll of the container and of RCON tells of.
pub open spec fn reading(mc: Option<ContainerStatus>, rcon_ok: bool) -> ServerState {
    match mc {
        Some(s) => crate::monitor::state_of(
            crate::text::opt_string(s.status),
            s.running,
            crate::text::opt_string(s.health),
            rcon_ok,
        ),
        None => crate::monitor::state_of(None, false, None, rcon_ok),
    }
}

/// What is said after a reading: a confirmed state, then instability, then a
/// page.
pub open spec fn notices(
    damper: crate::monitor::DamperView,
    state: ServerState,
    now: int,
    status: Option<Seq<char>>,
    admin_role_id: u64,
) -> Seq<NoticeView> {
    (match damper.transition(state) {
        Some(t) => seq![NoticeView::Say(transition_words(t, status))],
        None => Seq::empty(),
    }) + (if damper.unstable(state, now) {
        seq![NoticeView::Say(UNSTABLE@)]
    } else {
        Seq::empty()
    }) + (if damper.pages(state, now) {
        seq![
            NoticeView::Page(
                page_words(
                    damper.after(state, now).current,
                    damper.lasted(state, now),
                    status,
                    admin_role_id,
                ),
            ),
        ]
    } else {
        Seq::empty()
    })
}

/// The names in a reply to `list`; nobody if there is none that makes sense.
pub open spec fn names_in(list_reply: Option<Seq<char>>) -> Seq<Seq<char>> {
    match list_reply {
        Some(raw) => match crate::parse::list_of(raw) {
            Some((_, _, names)) => names,
            None => Seq::empty(),
        },
        None => Seq::empty(),
    }
}

/// The hours to spin the wheel with for a player in the round for a new
/// build: those of the session on record, or two.
pub open spec fn deploy_hours(
    sessions: crate::chronicle::Sessions,
    name: Seq<char>,
    now: int,
) -> int {
    if sessions.dom().contains(name) {
        crate::chronicle::full_hours(sessions[name].start, now)
    } else {
        2
    }
}

/// One spin for each player present.
pub open spec fn deploy_spins(
    sessions: crate::chronicle::Sessions,
    present: Seq<Seq<char>>,
    now: int,
) -> Seq<TurnView> {
    present.map_values(|name: Seq<char>| TurnView::Spin(name, deploy_hours(sessions, name, now)))
}

/// For each milestone a line in the chronicle, where one is due, and a spin.
pub open spec fn milestone_turns(news: Seq<(Seq<char>, int)>) -> Seq<TurnView>
    decreases news.len(),
{
    if news.len() == 0 {
        Seq::empty()
    } else {
        let (player, hours) = news.last();
        let earlier = milestone_turns(news.drop_last());
        (if hours >= 2 {
            earlier.push(TurnView::Say(crate::chronicle::message(player, hours as u32)))
        } else {
            earlier
        }).push(TurnView::Spin(player, hours))
    }
}

/// What is done about the players after a poll: the round for a new build, if
/// it is still to come and there is anyone to spin for, then the milestones.
pub open spec fn turns(v: WatchView, present: Seq<Seq<char>>, now: int) -> Seq<TurnView> {
    (if v.deploy_round && present.len() > 0 {
        seq![TurnView::Say(DEPLOY_ROUND@)] + deploy_spins(v.sessions, present, now)
    } else {
        Seq::empty()
    }) + milestone_turns(crate::chronicle::news(v.sessions, present, now))
}

impl Watch {
    pub closed spec fn wf(&self) -> bool {
        self.damper.wf() && self.sessions.wf()
    }

    /// A watch that has seen nothing and takes the server to be down.
    pub fn new(announce_deploy_round: bool) -> (w: Watch)
        ensures
            w.wf(),
            w@ == (WatchView {
                damper: crate::monitor::fresh_damper(ServerState::Down),
                backing_up: false,
                sessions: Map::empty(),
                seen: Set::empty(),
                deploy_round: announce_deploy_round,
            }),
    {
        Watch {
            damper: Damper::new(ServerState::Down),
            backups: BackupWatch::default(),
            sessions: SessionTracker::default(),
            herald: Herald::new(),
            deploy_round: announce_deploy_round,
        }
    }

    /// Takes in a poll of the server's container and of RCON.
    pub fn observe_server(
        &mut self,
        mc: &Option<ContainerStatus>,
        rcon_ok: bool,
        now: Moment,
        admin_role_id: u64,
    ) -> (out: Vec<Notice>)
        requires
            old(self).wf(),
        ensures
            final(self).wf(),
            final(self)@ == (WatchView {
                damper: old(self)@.damper.after(reading(*mc, rcon_ok), now@),
                ..old(self)@
            }),
            out@.map_values(|n: Notice| n@) == notices(
                old(self)@.damper,
                reading(*mc, rcon_ok),
                now@,
                crate::commands::status_in(*mc),
                admin_role_id,
            ),
    {
        let (status, running, health): (Option<&str>, bool, Option<&str>) = match mc {
            Some(s) => (as_slice(&s.status), s.running, as_slice(&s.health)),
            None => (None, false, None),
        };
        let state = classify(status, running, health, rcon_ok);
        assert(state == reading(*mc, rcon_ok));
        let signal = self.damper.observe(state, now);
        let mut out: Vec<Notice> = Vec::new();
        let ghost f = |n: Notice| n@;
        assert(out@.map_values(f) == Seq::<NoticeView>::empty());
        if let Some(t) = signal.transition {
            out.push(Notice::Say(transition_message(t, status)));
            assert(out@.map_values(f) == seq![
                NoticeView::Say(transition_words(t, crate::text::opt(status))),
            ]);
        }
        if signal.instability {
            let ghost earlier = out@;
            out.push(Notice::Say(String::from_str(UNSTABLE)));
            assert(out@.map_values(f) == earlier.map_values(f) + seq![NoticeView::Say(UNSTABLE@)]);
        }
        if let Some(esc) = signal.escalation {
            let ghost earlier = out@;
            let page = escalation_message(esc, status, admin_role_id);
            out.push(Notice::Page(page));
            assert(out@.map_values(f) == earlier.map_values(f) + seq![NoticeView::Page(page@)]);
        }
        out
    }

    /// Takes in a poll of the backup container; a backup that failed is told
    /// of.
    pub fn observe_backup(&mut self, running: bool, exit_code: Option<i64>) -> (r: Option<String>)
        requires
            old(self).wf(),
        ensures
            final(self).wf(),
            final(self)@ == (WatchView { backing_up: running, ..old(self)@ }),
            crate::text::opt_string(r) == (match crate::monitor::backup_event(
                old(self)@.backing_up,
                running,
                exit_code,
            ) {
                Some(BackupEvent::Failed(code)) => Some(
                    BACKUP_FAILED_HEAD@ + crate::text::decimal_int(code as int)
                        + BACKUP_FAILED_TAIL@,
                ),
                _ => None,
            }),
    {
        match self.backups.observe(running, exit_code) {
            Some(BackupEvent::Failed(code)) => Some(backup_failed_message(code)),
            _ => None,
        }
    }

    /// Takes in the server's reply to `list`, none if it did not answer.
    pub fn observe_players(&mut self, list_reply: Option<&str>, now: Moment) -> (out: Vec<Turn>)
        requires
            old(self).wf(),
        ensures
            final(self).wf(),
            final(self)@ == (WatchView {
                sessions: crate::chronicle::after_poll(
                    old(self)@.sessions,
                    names_in(crate::text::opt(list_reply)),
                    now@,
                ),
                deploy_round: false,
                ..old(self)@
            }),
            out@.map_values(|t: Turn| t@) == turns(
                old(self)@,
                names_in(crate::text::opt(list_reply)),
                now@,
            ),
    {
        let ghost before = self@;
        let ghost f = |t: Turn| t@;
        let list = match list_reply {
            Some(raw) => parse_list(raw),
            None => None,
        };
        let present: Vec<String> = match list {
            Some(p) => p.names,
            None => Vec::new(),
        };
        let ghost names = crate::text::views(present@);
        assert(names == names_in(crate::text::opt(list_reply)));
        let mut out: Vec<Turn> = if self.deploy_round {
            self.deploy_turns(&present, now)
        } else {
            Vec::new()
        };
        let ghost lead = out@.map_values(f);
        assert(lead == (if before.deploy_round && names.len() > 0 {
            seq![TurnView::Say(DEPLOY_ROUND@)] + deploy_spins(before.sessions, names, now@)
        } else {
            Seq::empty()
        }));
        self.deploy_round = false;
        proof {
            self.sessions.lemma_starts();
        }
        let anns = self.sessions.observe(present.as_slice(), now);
        let ghost news = crate::chronicle::as_news(anns@);
        assert(news == crate::chronicle::news(before.sessions, names, now@));
        proof {
            crate::chronicle::law_announcements(before.sessions, names, now@);
            assert forall|name: Seq<char>, hours: int| #[trigger]
                news.contains((name, hours)) implies 2 <= hours <= u32::MAX / 2 by {
                let start = crate::chronicle::started(before.sessions, name, now@);
                assert(0 <= start);
                assert(crate::clock::elapsed(start, now@) <= u64::MAX);
                assert(crate::clock::minutes(60) == 3_600_000_000_000);
                assert(hours == crate::clock::elapsed(start, now@) / 3_600_000_000_000);
            }
        }
        assert(lead + milestone_turns(news.take(0)) == lead);
        for k in 0..anns.len()
            invariant
                f == (|t: Turn| t@),
                news == crate::chronicle::as_news(anns@),
                news == crate::chronicle::news(before.sessions, names, now@),
                forall|name: Seq<char>, hours: int| #[trigger]
                    news.contains((name, hours)) ==> 2 <= hours <= u32::MAX / 2,
                out@.map_values(f) == lead + milestone_turns(news.take(k as int)),
        {
            let ghost earlier = out@;
            let player = anns[k].player.clone();
            let hours: u32 = anns[k].hours;
            proof {
                let next = news.take(k + 1);
                assert(next.drop_last() == news.take(k as int));
                assert(next.last() == (player@, hours as int));
                assert(news[k as int] == (player@, hours as int));
                assert(news.contains((player@, hours as int)));
            }
            if chronicle_due(2 * hours) {
                let line = session_message(player.as_str(), hours);
                out.push(Turn::Say(line));
                assert(out@.map_values(f) == earlier.map_values(f).push(TurnView::Say(line@)));
            }
            let ghost middle = out@;
            out.push(Turn::Spin { player, hours });
            assert(out@.map_values(f) == middle.map_values(f).push(
                TurnView::Spin(player@, hours as int),
            ));
            assert(out@.map_values(f) == lead + milestone_turns(news.take(k + 1)));
        }
        assert(news.take(news.len() as int) == news);
        out
    }

    fn deploy_turns(&self, present: &Vec<String>, now: Moment) -> (out: Vec<Turn>)
        requires
            self.wf(),
        ensures
            out@.map_values(|t: Turn| t@) == (if present@.len() > 0 {
                seq![TurnView::Say(DEPLOY_ROUND@)] + deploy_spins(
                    self@.sessions,
                    crate::text::views(present@),
                    now@,
                )
            } else {
                Seq::empty()
            }),
    {
        let ghost f = |t: Turn| t@;
        let mut out: Vec<Turn> = Vec::new();
        if present.len() == 0 {
            assert(out@.map_values(f) == Seq::<TurnView>::empty());
            return out;
        }
        let ghost names = crate::text::views(present@);
        out.push(Turn::Say(String::from_str(DEPLOY_ROUND)));
        let ghost lead = seq![TurnView::Say(DEPLOY_ROUND@)];
        assert(out@.map_values(f) == lead + deploy_spins(self@.sessions, names.take(0), now@));
        for k in 0..present.len()
            invariant
                self.wf(),
                f == (|t: Turn| t@),
                names == crate::text::views(present@),
                out@.map_values(f) == lead + deploy_spins(
                    self@.sessions,
                    names.take(k as int),
                    now@,
                ),
        {
            let ghost earlier = out@;
            let hours: u32 = deploy_round_hours(self.sessions.current_hours(&present[k], now));
            out.push(Turn::Spin { player: present[k].clone(), hours });
            assert(hours == deploy_hours(self@.sessions, names[k as int], now@));
            assert(out@.map_values(f) == earlier.map_values(f).push(
                TurnView::Spin(present@[k as int]@, hours as int),
            ));
            assert(deploy_spins(self@.sessions, names.take(k + 1), now@) == deploy_spins(
                self@.sessions,
                names.take(k as int),
                now@,
            ).push(
                TurnView::Spin(
                    names[k as int],
                    deploy_hours(self@.sessions, names[k as int], now@),
                ),
            ));
        }
        assert(names.take(names.len() as int) == names);
        out
    }

    /// Takes in a piece of the server's log and returns what is to be
    /// proclaimed.
    pub fn observe_log(&mut self, log: &str) -> (out: Vec<String>)
        requires
            old(self).wf(),
        ensures
            final(self).wf(),
            final(self)@ == (WatchView {
                seen: crate::heraldo::seen_after(old(self)@.seen, crate::text::split(log@, '\n')),
                ..old(self)@
            }),
            crate::text::views(out@) == crate::heraldo::proclaimed(
                old(self)@.seen,
                crate::text::split(log@, '\n'),
            ),
    {
        self.herald.process(log)
    }
}

/// Spins the wheel for a player, unless the name is not a valid one.
pub fn spin_wheel_for<R: RollSource>(player: &str, hours: u32, rng: &mut R) -> (r: Option<Spin>)
    requires
        old(rng).ready(),
    ensures
        final(rng).ready(),
        match r {
            None => !crate::patterns::username(player@) && *final(rng) == *old(rng),
            Some(s) => crate::patterns::username(player@) && exists|m: R, n: R, a: u32, b: u32, c: u32|
                #![trigger R::rolls(*old(rng), m, a), R::rolls(m, n, b), R::rolls(n, *final(rng), c)]
                R::rolls(*old(rng), m, a) && R::rolls(m, n, b) && R::rolls(n, *final(rng), c) && s@
                    == crate::fortuna::outcome(player@, hours, a, b, c),
        },
{
    if valid_player_name(player) {
        Some(spin(player, hours, rng))
    } else {
        None
    }
}

// ---------------------------------------------------------------------------
// Laws
// ---------------------------------------------------------------------------

/// A page begins by mentioning the admins.
pub proof fn law_pages_mention_the_admins(
    state: ServerState,
    nanos: int,
    status: Option<Seq<char>>,
    admin_role_id: u64,
)
    ensures
        crate::text::occurs_at(
            page_words(state, nanos, status, admin_role_id),
            mention(admin_role_id).push('>'),
            0,
        ),
{
    reveal_strlit("> :rotating_light: La ínsula sigue TRABADA hace ");
    reveal_strlit("> :rotating_light: La ínsula lleva ");
    let words = page_words(state, nanos, status, admin_role_id);
    let lead = mention(admin_role_id).push('>');
    assert(words.subrange(0, lead.len() as int) == lead);
}

/// Every confirmed state is told in its own words, and a stuck server with its
/// status.
pub proof fn law_every_state_is_told_in_its_words(state: ServerState, status: Option<Seq<char>>)
    ensures
        ({
            let said = transition_words(state, status);
            match state {
                ServerState::Up => said
                    == ":green_circle: ¡En pie está la ínsula! Presta para recibir a sus caballeros."@,
                ServerState::Starting => said
                    == ":yellow_circle: La ínsula despereza sus engranajes; aguarde vuestra merced, que ya despierta."@,
                ServerState::Unhealthy => said
                    == ":orange_circle: La ínsula sufre de melancolía en sus engranajes (el tick loop flaquea). Considere vuestra merced un /restart."@,
                ServerState::Down => said
                    == ":red_circle: ¡Ha caído la ínsula! Los follones y malandrines han triunfado... por ahora."@,
                ServerState::Wedged => said
                    == ":skull: ¡La ínsula ha quedado TRABADA! Podman la reporta en el estado '"@ + (
                match status {
                    Some(word) => word,
                    None => "desconocido"@,
                }) + WEDGED_TAIL@,
            }
        }),
{
}

/// What a page says: how many full minutes the state has lasted, and the state
/// itself, or the status of a server that is stuck.
pub proof fn law_pages_tell_the_minutes(
    state: ServerState,
    nanos: int,
    m: nat,
    status: Option<Seq<char>>,
    admin_role_id: u64,
)
    requires
        m * 60_000_000_000 <= nanos < (m + 1) * 60_000_000_000,
    ensures
        ({
            let said = page_words(state, nanos, status, admin_role_id);
            let lead = "<@&"@ + crate::text::decimal(admin_role_id as nat);
            let named = match state {
                ServerState::Up => "Up"@,
                ServerState::Starting => "Starting"@,
                ServerState::Unhealthy => "Unhealthy"@,
                ServerState::Down => "Down"@,
                ServerState::Wedged => match status {
                    Some(word) => word,
                    None => "desconocido"@,
                },
            };
            &&& state == ServerState::Wedged ==> said == lead
                + "> :rotating_light: La ínsula sigue TRABADA hace "@ + crate::text::decimal(m)
                + " minutos (podman: estado '"@ + named + STILL_WEDGED_TAIL@
            &&& state != ServerState::Wedged ==> said == lead
                + "> :rotating_light: La ínsula lleva "@ + crate::text::decimal(m)
                + " minutos sin levantarse ("@ + named + STILL_DOWN_TAIL@
        }),
{
    assert(nanos / 1_000_000_000 / 60 == nanos / 60_000_000_000);
    assert(whole_minutes(nanos) == m);
}

/// What a poll tells of: a server without a container is down, and any other
/// is in the state that its container and RCON tell of.
pub proof fn law_a_missing_server_is_down(mc: Option<ContainerStatus>, rcon_ok: bool)
    ensures
        mc is None ==> reading(mc, rcon_ok) == ServerState::Down,
        mc matches Some(s) ==> reading(mc, rcon_ok) == crate::monitor::state_of(
            match s.status {
                Some(word) => Some(word@),
                None => None,
            },
            s.running,
            match s.health {
                Some(word) => Some(word@),
                None => None,
            },
            rcon_ok,
        ),
{
    crate::docker::law_four_statuses_are_wedges(None);
}

/// What is said after a reading, and in which order: the state, if it was
/// pending and is now confirmed; that the server is unstable; and a page. There
/// is nothing else, and nothing is said twice.
pub proof fn law_what_is_said_of_a_reading(
    damper: crate::monitor::DamperView,
    state: ServerState,
    now: int,
    status: Option<Seq<char>>,
    admin_role_id: u64,
)
    ensures
        ({
            let said = notices(damper, state, now, status, admin_role_id);
            let confirmed = damper.pending == Some(state);
            let unstable = damper.unstable(state, now);
            let paged = damper.pages(state, now);
            let after = damper.after(state, now);
            let lasted = now - after.since.unwrap();
            &&& said.len() == (if confirmed {
                1int
            } else {
                0
            }) + (if unstable {
                1int
            } else {
                0
            }) + (if paged {
                1int
            } else {
                0
            })
            &&& confirmed ==> said[0] == NoticeView::Say(transition_words(state, status))
            &&& unstable ==> said[0] == NoticeView::Say(
                ":warning: ¡La ínsula tiembla, vuestra merced! Cae y se alza sin cesar, como aspa de molino en tormenta. Un mal presagio: acuda alguien del consejo a mirar los logs."@,
            )
            &&& paged ==> said.last() == NoticeView::Page(
                page_words(
                    after.current,
                    if lasted > 0 {
                        lasted
                    } else {
                        0
                    },
                    status,
                    admin_role_id,
                ),
            )
        }),
{
}

/// While the server stays up nothing is said of it.
pub proof fn law_a_steady_server_is_silent(
    damper: crate::monitor::DamperView,
    now: int,
    status: Option<Seq<char>>,
    admin_role_id: u64,
)
    requires
        damper.current == ServerState::Up,
        damper.pending is None,
    ensures
        notices(damper, ServerState::Up, now, status, admin_role_id).len() == 0,
{
}

/// Outside the round for a new build, each player who has reached a new full
/// hour gets a line in the chronicle and then a spin with those hours, and
/// nothing else happens.
pub proof fn law_every_milestone_is_told_and_spun(
    v: WatchView,
    present: Seq<Seq<char>>,
    now: int,
    k: int,
)
    requires
        !v.deploy_round,
        0 <= k < crate::chronicle::news(v.sessions, present, now).len(),
    ensures
        ({
            let news = crate::chronicle::news(v.sessions, present, now);
            let (player, hours) = news[k];
            &&& turns(v, present, now).len() == 2 * news.len()
            &&& turns(v, present, now)[2 * k] == TurnView::Say(
                crate::chronicle::message(player, hours as u32),
            )
            &&& turns(v, present, now)[2 * k + 1] == TurnView::Spin(player, hours)
        }),
{
    let news = crate::chronicle::news(v.sessions, present, now);
    crate::chronicle::law_announcements(v.sessions, present, now);
    assert forall|j: int| 0 <= j < news.len() implies (#[trigger] news[j]).1 >= 2 by {
        let (name, hours) = news[j];
        assert(news.contains((name, hours)));
    }
    lemma_milestone_turns(news, k);
    assert(turns(v, present, now) == milestone_turns(news));
}

proof fn lemma_milestone_turns(news: Seq<(Seq<char>, int)>, k: int)
    requires
        forall|j: int| 0 <= j < news.len() ==> (#[trigger] news[j]).1 >= 2,
        0 <= k < news.len() || news.len() == 0,
    ensures
        milestone_turns(news).len() == 2 * news.len(),
        news.len() > 0 ==> {
            &&& milestone_turns(news)[2 * k] == TurnView::Say(
                crate::chronicle::message(news[k].0, news[k].1 as u32),
            )
            &&& milestone_turns(news)[2 * k + 1] == TurnView::Spin(news[k].0, news[k].1)
        },
    decreases news.len(),
{
    if news.len() > 0 {
        let fewer = news.drop_last();
        assert forall|j: int| 0 <= j < fewer.len() implies (#[trigger] fewer[j]).1 >= 2 by {
            assert(news[j].1 >= 2);
        }
        assert(news[news.len() - 1].1 >= 2);
        lemma_milestone_turns(
            fewer,
            if k < fewer.len() {
                k
            } else {
                0
            },
        );
    }
}

/// The round for a new build comes before the milestones and leaves them as they
/// are: it is announced, and then everyone present is spun for once, with the
/// full hours of the session on record, or with two.
pub proof fn law_the_round_for_a_new_build(
    v: WatchView,
    present: Seq<Seq<char>>,
    now: int,
    k: int,
    h: int,
)
    requires
        v.deploy_round,
        0 <= k < present.len(),
    ensures
        ({
            let did = turns(v, present, now);
            let n = present.len() as int;
            &&& did.len() > n
            &&& did[0] == TurnView::Say(
                ":ferris_wheel: Nueva singladura del código, y la Rueda quiere estrenarla: gira una vez por cada caballero presente."@,
            )
            &&& !v.sessions.dom().contains(present[k]) ==> did[k + 1] == TurnView::Spin(
                present[k],
                2,
            )
            &&& v.sessions.dom().contains(present[k]) && now >= v.sessions[present[k]].start && h
                * 3_600_000_000_000 <= now - v.sessions[present[k]].start < (h + 1)
                * 3_600_000_000_000 ==> did[k + 1] == TurnView::Spin(present[k], h)
            &&& did.skip(n + 1) == turns(WatchView { deploy_round: false, ..v }, present, now)
        }),
{
    let spins = deploy_spins(v.sessions, present, now);
    let lead = seq![TurnView::Say(DEPLOY_ROUND@)] + spins;
    let rest = milestone_turns(crate::chronicle::news(v.sessions, present, now));
    assert(turns(v, present, now) == lead + rest);
    assert(spins.len() == present.len());
    assert((lead + rest)[k + 1] == spins[k]);
    assert((lead + rest).skip(present.len() as int + 1) == rest);
    assert(turns(WatchView { deploy_round: false, ..v }, present, now) == rest);
    if v.sessions.dom().contains(present[k]) {
        crate::chronicle::law_full_hours(v.sessions[present[k]].start, now, h);
    }
}

/// Who is present: the names in the server's reply, and nobody without a reply
/// that makes sense.
pub proof fn law_who_is_present(raw: Seq<char>)
    ensures
        names_in(None).len() == 0,
        crate::parse::list_of(raw) is None ==> names_in(Some(raw)).len() == 0,
        crate::parse::list_of(raw) matches Some((_, _, names)) ==> names_in(Some(raw)) == names,
{
}

/// The first round of a new build spins once, with two hours, for everyone
/// who is online, and announces it if there is anyone; later rounds do not.
pub proof fn law_a_new_build_spins_for_everyone_once(
    v: WatchView,
    present: Seq<Seq<char>>,
    now: int,
)
    requires
        v.deploy_round,
        v.sessions == Map::<Seq<char>, crate::chronicle::SessionView>::empty(),
    ensures
        present.len() > 0 ==> turns(v, present, now) == seq![TurnView::Say(DEPLOY_ROUND@)]
            + present.map_values(|name: Seq<char>| TurnView::Spin(name, 2)),
        present.len() == 0 ==> turns(v, present, now).len() == 0,
{
    let news = crate::chronicle::news(v.sessions, present, now);
    crate::chronicle::law_announcements(v.sessions, present, now);
    assert(news.len() == 0) by {
        if news.len() > 0 {
            let (name, hours) = news[0];
            assert(news.contains((name, hours)));
            assert(crate::clock::minutes(60) == 3_600_000_000_000);
        }
    }
    assert(deploy_spins(v.sessions, present, now) == present.map_values(
        |name: Seq<char>| TurnView::Spin(name, 2),
    ));
    if present.len() > 0 {
        assert(turns(v, present, now) == seq![TurnView::Say(DEPLOY_ROUND@)] + deploy_spins(
            v.sessions,
            present,
            now,
        ));
    }
}

} // verus!
