//! The watch over the server: classifying one reading, damping a series of
//! readings into notifications, and watching the backup runs.

use std::collections::VecDeque;
use vstd::prelude::*;
use crate::clock::{Moment, Span};
use crate::docker::is_wedged;
use crate::text::same;

verus! {

#[derive(Debug, Clone, Copy, PartialEq, Eq, Structural)]
pub enum ServerState {
    Up,
    Starting,
    Unhealthy,
    Down,
    /// Stuck in the middle of its life cycle by podman's own account. Neither
    /// a start nor a restart recovers it.
    Wedged,
}

/// What one poll says about the server.
pub open spec fn state_of(
    status: Option<Seq<char>>,
    running: bool,
    health: Option<Seq<char>>,
    rcon_ok: bool,
) -> ServerState {
    if crate::docker::wedged(status) {
        ServerState::Wedged
    } else if !running {
        ServerState::Down
    } else if health == Some("unhealthy"@) {
        ServerState::Unhealthy
    } else if health == Some("starting"@) {
        ServerState::Starting
    } else if health == Some("healthy"@) || rcon_ok {
        ServerState::Up
    } else {
        ServerState::Starting
    }
}

/// Classifies one poll. The raw `status` wins over every other signal,
/// because it is the one field that names a wedge.
pub fn classify(
    status: Option<&str>,
    running: bool,
    health: Option<&str>,
    rcon_ok: bool,
) -> (r: ServerState)
    ensures
        r == state_of(crate::text::opt(status), running, crate::text::opt(health), rcon_ok),
{
    if is_wedged(status) {
        return ServerState::Wedged;
    }
    if !running {
        return ServerState::Down;
    }
    match health {
        Some(h) => {
            if same(h, "unhealthy") {
                ServerState::Unhealthy
            } else if same(h, "starting") {
                ServerState::Starting
            } else if same(h, "healthy") || rcon_ok {
                ServerState::Up
            } else {
                ServerState::Starting
            }
        },
        None => if rcon_ok {
            ServerState::Up
        } else {
            ServerState::Starting
        },
    }
}

/// Whatever else a poll says, a wedged status makes the server wedged, and
/// nothing else does.
pub proof fn law_wedge_wins(
    status: Option<Seq<char>>,
    running: bool,
    health: Option<Seq<char>>,
    rcon_ok: bool,
)
    ensures
        crate::docker::wedged(status) <==> state_of(status, running, health, rcon_ok)
            == ServerState::Wedged,
{
}

/// Which state a poll tells of, signal by signal. A container stuck in its
/// life cycle is wedged; one that is not running is down; of a running one
/// the health check decides where it has a verdict, and RCON where it has
/// none.
pub proof fn law_signals_decide_the_state(
    status: Option<Seq<char>>,
    running: bool,
    health: Option<Seq<char>>,
    rcon_ok: bool,
)
    ensures
        ({
            let s = state_of(status, running, health, rcon_ok);
            let stuck = status == Some("stopping"@) || status == Some("removing"@) || status
                == Some("dead"@) || status == Some("paused"@);
            let verdict = health == Some("healthy"@) || health == Some("unhealthy"@) || health
                == Some("starting"@);
            &&& s == ServerState::Wedged <==> stuck
            &&& s == ServerState::Down <==> !stuck && !running
            &&& s == ServerState::Unhealthy <==> !stuck && running && health == Some("unhealthy"@)
            &&& s == ServerState::Up <==> !stuck && running && (health == Some("healthy"@) || (
            !verdict && rcon_ok))
            &&& s == ServerState::Starting <==> !stuck && running && (health == Some("starting"@)
                || (!verdict && !rcon_ok))
        }),
{
    reveal_strlit("healthy");
    reveal_strlit("unhealthy");
    reveal_strlit("starting");
    assert("healthy"@.len() == 7 && "unhealthy"@.len() == 9 && "starting"@.len() == 8);
}

// ---------------------------------------------------------------------------
// The damper
// ---------------------------------------------------------------------------

/// Seconds that a flap reset counts towards instability.
pub const FLAP_WINDOW_SECS: u64 = 300;

/// Flap resets inside the window that amount to a crash loop.
pub const FLAP_THRESHOLD: usize = 4;

/// Seconds of silence about further flapping after an instability signal.
pub const INSTABILITY_COOLDOWN_SECS: u64 = 900;

/// The most flap resets that are remembered.
pub const MAX_TRACKED_RESETS: usize = 16;

/// How many seconds a confirmed state other than `Up` must last for each of
/// the first pages.
pub const ESCALATION_LADDER_SECS: [u64; 4] = [300, 900, 1800, 3600];

/// Seconds between pages once the ladder is used up.
pub const ESCALATION_REPEAT_SECS: u64 = 3600;

/// How long, in nanoseconds, a state must have lasted for the page that
/// follows `sent` earlier ones.
pub open spec fn threshold(sent: int) -> int {
    if sent < 4 {
        crate::clock::seconds(ESCALATION_LADDER_SECS@[sent] as int)
    } else {
        crate::clock::seconds(3600 + ESCALATION_REPEAT_SECS * (sent - 3))
    }
}

/// How long a state must have lasted for the page that follows
/// `escalations_sent` earlier ones.
pub fn escalation_threshold(escalations_sent: usize) -> (s: Span)
    ensures
        s@ == threshold(escalations_sent as int),
{
    if escalations_sent < 4 {
        Span::from_secs(ESCALATION_LADDER_SECS[escalations_sent])
    } else {
        let extra: u128 = (escalations_sent - 3) as u128;
        Span { nanos: (3600 + 3600 * extra) * 1_000_000_000 }
    }
}

/// One page: the server has been in `state`, which is not `Up`, for
/// `elapsed`.
#[derive(Debug, Clone, Copy, PartialEq, Eq)]
pub struct Escalation {
    pub state: ServerState,
    pub elapsed: Span,
}

/// What one reading produced: a confirmed change of state, whether the
/// readings have become unstable, and whether a page is due.
#[derive(Debug, Clone, Copy, PartialEq, Eq)]
pub struct DamperSignal {
    pub transition: Option<ServerState>,
    pub instability: bool,
    pub escalation: Option<Escalation>,
}

/// What a damper remembers. Times are nanoseconds on the caller's clock.
pub struct DamperView {
    /// The confirmed state.
    pub current: ServerState,
    /// A different state seen in the last reading, not yet confirmed.
    pub pending: Option<ServerState>,
    /// When pending states were discarded, oldest first.
    pub resets: Seq<int>,
    /// Instability is not signalled again before this time.
    pub quiet_until: Option<int>,
    /// When `current` was confirmed, or first observed.
    pub since: Option<int>,
    /// Pages sent since the server was last up.
    pub sent: int,
}

/// `resets` without the leading entries that lie outside the window.
pub open spec fn fresh(resets: Seq<int>, now: int) -> Seq<int>
    decreases resets.len(),
{
    if resets.len() > 0 && crate::clock::elapsed(resets[0], now) > crate::clock::seconds(
        FLAP_WINDOW_SECS as int,
    ) {
        fresh(resets.skip(1), now)
    } else {
        resets
    }
}

/// `resets` without its oldest entry if there are too many.
pub open spec fn capped(resets: Seq<int>) -> Seq<int> {
    if resets.len() > MAX_TRACKED_RESETS {
        resets.skip(1)
    } else {
        resets
    }
}

impl DamperView {
    pub open spec fn wf(self) -> bool {
        &&& self.pending != Some(self.current)
        &&& self.resets.len() <= MAX_TRACKED_RESETS
        &&& self.sent >= 0
    }

    /// The second of two equal readings in a row confirms a new state.
    pub open spec fn transition(self, s: ServerState) -> Option<ServerState> {
        if self.pending == Some(s) {
            Some(s)
        } else {
            None
        }
    }

    /// A pending state is discarded: the reading is neither that state nor
    /// the first sighting of another.
    pub open spec fn flaps(self, s: ServerState) -> bool {
        self.pending is Some && self.pending != Some(s)
    }

    /// A flap at `now` would be passed over in silence.
    pub open spec fn quiet(self, now: int) -> bool {
        self.quiet_until matches Some(t) && now < t
    }

    /// The reading is the flap that makes the readings unstable.
    pub open spec fn unstable(self, s: ServerState, now: int) -> bool {
        self.flaps(s) && !self.quiet(now) && fresh(self.resets, now).len() + 1 >= FLAP_THRESHOLD
    }

    pub open spec fn next_current(self, s: ServerState) -> ServerState {
        if self.pending == Some(s) {
            s
        } else {
            self.current
        }
    }

    pub open spec fn next_since(self, s: ServerState, now: int) -> int {
        if self.pending == Some(s) {
            now
        } else {
            match self.since {
                Some(t) => t,
                None => now,
            }
        }
    }

    /// How long the state after the reading has lasted.
    pub open spec fn lasted(self, s: ServerState, now: int) -> int {
        crate::clock::elapsed(self.next_since(s, now), now)
    }

    /// Pages sent in the unbroken stretch that the reading belongs to.
    pub open spec fn sent_before(self, s: ServerState) -> int {
        if self.transition(s) == Some(ServerState::Up) {
            0
        } else {
            self.sent
        }
    }

    /// A page is due: the state after the reading is not `Up` and has lasted
    /// until the next rung.
    pub open spec fn pages(self, s: ServerState, now: int) -> bool {
        self.next_current(s) != ServerState::Up && self.lasted(s, now) >= threshold(
            self.sent_before(s),
        )
    }

    /// A flap is remembered, in silence or not, unless it is the one that is
    /// signalled: then counting starts over.
    pub open spec fn next_resets(self, s: ServerState, now: int) -> Seq<int> {
        if !self.flaps(s) {
            self.resets
        } else if self.unstable(s, now) {
            Seq::empty()
        } else {
            capped(fresh(self.resets, now).push(now))
        }
    }

    pub open spec fn next_quiet_until(self, s: ServerState, now: int) -> Option<int> {
        if !self.flaps(s) || self.quiet(now) {
            self.quiet_until
        } else if self.unstable(s, now) {
            Some(now + crate::clock::seconds(INSTABILITY_COOLDOWN_SECS as int))
        } else {
            None
        }
    }

    /// What the damper remembers after the reading `s` at `now`.
    pub open spec fn after(self, s: ServerState, now: int) -> DamperView {
        DamperView {
            current: self.next_current(s),
            pending: if s == self.next_current(s) {
                None
            } else {
                Some(s)
            },
            resets: self.next_resets(s, now),
            quiet_until: self.next_quiet_until(s, now),
            since: Some(self.next_since(s, now)),
            sent: self.sent_before(s) + (if self.pages(s, now) {
                1int
            } else {
                0int
            }),
        }
    }

    /// What the damper remembers after a series of readings.
    pub open spec fn after_all(self, readings: Seq<(ServerState, int)>) -> DamperView
        decreases readings.len(),
    {
        if readings.len() == 0 {
            self
        } else {
            let before = self.after_all(readings.drop_last());
            before.after(readings.last().0, readings.last().1)
        }
    }
}

/// Turns readings into notifications: a change of state is reported once two
/// readings in a row agree on it, a crash loop once per cooldown, and a state
/// other than `Up` again and again for as long as it lasts.
pub struct Damper {
    current: ServerState,
    pending: Option<ServerState>,
    resets: VecDeque<Moment>,
    quiet_since: Option<Moment>,
    since: Option<Moment>,
    sent: usize,
}

impl View for Damper {
    type V = DamperView;

    closed spec fn view(&self) -> DamperView {
        DamperView {
            current: self.current,
            pending: self.pending,
            resets: self.resets@.map_values(|m: Moment| m@),
            quiet_until: match self.quiet_since {
                Some(m) => Some(
                    m@ + crate::clock::seconds(INSTABILITY_COOLDOWN_SECS as int),
                ),
                None => None,
            },
            since: match self.since {
                Some(m) => Some(m@),
                None => None,
            },
            sent: self.sent as int,
        }
    }
}

impl Damper {
    /// The state is consistent, and the page counter is one that a clock of
    /// 64-bit nanoseconds can reach.
    pub closed spec fn wf(&self) -> bool {
        &&& self@.wf()
        &&& self.sent > 0 ==> threshold(self.sent - 1) <= u64::MAX
    }

    /// A damper that takes `initial` as confirmed and has seen no reading.
    pub fn new(initial: ServerState) -> (d: Damper)
        ensures
            d.wf(),
            d@ == fresh_damper(initial),
            d@.wf(),
    {
        let d = Damper {
            current: initial,
            pending: None,
            resets: VecDeque::new(),
            quiet_since: None,
            since: None,
            sent: 0,
        };
        assert(d@.resets == Seq::<int>::empty());
        d
    }

    /// Takes one reading, made at `now`.
    pub fn observe(&mut self, s: ServerState, now: Moment) -> (signal: DamperSignal)
        requires
            old(self).wf(),
        ensures
            final(self).wf(),
            final(self)@ == old(self)@.after(s, now@),
            final(self)@.wf(),
            signal.transition == old(self)@.transition(s),
            signal.instability == old(self)@.unstable(s, now@),
            signal.escalation is Some <==> old(self)@.pages(s, now@),
            signal.escalation matches Some(e) ==> {
                &&& e.state == final(self)@.current
                &&& e.elapsed@ == old(self)@.lasted(s, now@)
            },
    {
        let ghost before = self@;
        let mut since = match self.since {
            Some(m) => m,
            None => now,
        };
        let mut flapped = false;
        let mut transition: Option<ServerState> = None;
        if s == self.current {
            flapped = self.pending.is_some();
            self.pending = None;
        } else {
            match self.pending {
                Some(p) => {
                    if p == s {
                        self.current = s;
                        self.pending = None;
                        since = now;
                        if s == ServerState::Up {
                            self.sent = 0;
                        }
                        transition = Some(s);
                    } else {
                        self.pending = Some(s);
                        flapped = true;
                    }
                },
                None => {
                    self.pending = Some(s);
                },
            }
        }
        self.since = Some(since);

        let instability = if flapped {
            self.record_flap_reset(now)
        } else {
            false
        };

        let mut escalation: Option<Escalation> = None;
        if self.current != ServerState::Up {
            let lasted = now.since(since);
            let rung = escalation_threshold(self.sent);
            if lasted.nanos >= rung.nanos {
                assert(self.sent < usize::MAX);
                self.sent = self.sent + 1;
                escalation = Some(Escalation { state: self.current, elapsed: lasted });
            }
        }
        proof {
            lemma_fresh_len(before.resets, now@);
        }
        DamperSignal { transition, instability, escalation }
    }

    /// Records a flap at `now` and tells whether it makes the readings
    /// unstable. While a signal is fresh, flaps are recorded in silence.
    fn record_flap_reset(&mut self, now: Moment) -> (unstable: bool)
        requires
            old(self)@.resets.len() <= MAX_TRACKED_RESETS,
        ensures
            final(self)@.current == old(self)@.current,
            final(self)@.pending == old(self)@.pending,
            final(self)@.since == old(self)@.since,
            final(self)@.sent == old(self)@.sent,
            final(self).sent == old(self).sent,
            unstable == (!old(self)@.quiet(now@) && fresh(old(self)@.resets, now@).len() + 1
                >= FLAP_THRESHOLD),
            final(self)@.resets == (if unstable {
                Seq::empty()
            } else {
                capped(fresh(old(self)@.resets, now@).push(now@))
            }),
            final(self)@.quiet_until == (if old(self)@.quiet(now@) {
                old(self)@.quiet_until
            } else if unstable {
                Some(now@ + crate::clock::seconds(INSTABILITY_COOLDOWN_SECS as int))
            } else {
                None
            }),
    {
        let window = Span::from_secs(FLAP_WINDOW_SECS);
        while self.resets.len() > 0 && now.since(self.resets[0]).nanos > window.nanos
            invariant
                window@ == crate::clock::seconds(FLAP_WINDOW_SECS as int),
                self@.resets.len() == self.resets@.len() <= MAX_TRACKED_RESETS,
                fresh(self@.resets, now@) == fresh(old(self)@.resets, now@),
                self@.current == old(self)@.current,
                self@.pending == old(self)@.pending,
                self@.since == old(self)@.since,
                self@.sent == old(self)@.sent,
                self.sent == old(self).sent,
                self@.quiet_until == old(self)@.quiet_until,
            decreases self.resets@.len(),
        {
            let ghost earlier = self@.resets;
            self.resets.pop_front();
            assert(self@.resets == earlier.skip(1));
        }
        let ghost kept = self@.resets;
        self.resets.push_back(now);
        assert(self@.resets == kept.push(now@));
        if self.resets.len() > MAX_TRACKED_RESETS {
            self.resets.pop_front();
            assert(self@.resets == kept.push(now@).skip(1));
        }
        let cooldown = Span::from_secs(INSTABILITY_COOLDOWN_SECS);
        if let Some(fired) = self.quiet_since {
            if now.nanos < fired.nanos || now.since(fired).nanos < cooldown.nanos {
                return false;
            }
            self.quiet_since = None;
        }
        if self.resets.len() >= FLAP_THRESHOLD {
            self.quiet_since = Some(now);
            self.resets.clear();
            assert(self@.resets == Seq::<int>::empty());
            true
        } else {
            false
        }
    }
}

proof fn lemma_fresh_len(resets: Seq<int>, now: int)
    ensures
        fresh(resets, now).len() <= resets.len(),
    decreases resets.len(),
{
    if resets.len() > 0 {
        lemma_fresh_len(resets.skip(1), now);
    }
}

// ---------------------------------------------------------------------------
// Laws of the damper
// ---------------------------------------------------------------------------

/// A fresh damper's memory, as `Damper::new` leaves it.
pub open spec fn fresh_damper(initial: ServerState) -> DamperView {
    DamperView {
        current: initial,
        pending: None,
        resets: Seq::empty(),
        quiet_until: None,
        since: None,
        sent: 0,
    }
}

/// Readings in the order of their times.
pub open spec fn in_order(readings: Seq<(ServerState, int)>) -> bool {
    forall|i: int, j: int| 0 <= i <= j < readings.len() ==> readings[i].1 <= readings[j].1
}

/// Every reading leaves a consistent memory.
pub proof fn law_consistency_is_kept(v: DamperView, s: ServerState, now: int)
    requires
        v.wf(),
    ensures
        v.after(s, now).wf(),
{
    lemma_fresh_len(v.resets, now);
}

/// A change of state is only reported when two readings in a row agree on it.
pub proof fn law_transition_needs_two_readings(
    v: DamperView,
    first: ServerState,
    second: ServerState,
    now: int,
)
    requires
        v.wf(),
    ensures
        v.after(first, now).transition(second) matches Some(s) ==> s == first && s == second && s
            != v.after(first, now).current,
{
}

/// A new state seen twice in a row is reported at the second reading, and not
/// again at the third.
pub proof fn law_two_readings_confirm_once(
    v: DamperView,
    s: ServerState,
    t1: int,
    t2: int,
)
    requires
        v.wf(),
        s != v.current,
        v.pending != Some(s),
    ensures
        v.transition(s) is None,
        v.after(s, t1).transition(s) == Some(s),
        v.after(s, t1).after(s, t2).current == s,
        v.after(s, t1).after(s, t2).transition(s) is None,
{
}

/// A reading of the confirmed state never reports a change, and discards
/// whatever was pending.
pub proof fn law_return_to_current_is_silent(v: DamperView, now: int)
    requires
        v.wf(),
    ensures
        v.transition(v.current) is None,
        v.after(v.current, now).current == v.current,
        v.after(v.current, now).pending is None,
{
}

/// No page is ever sent while the server is up.
pub proof fn law_up_never_pages(v: DamperView, s: ServerState, now: int)
    ensures
        v.after(s, now).current == ServerState::Up ==> !v.pages(s, now),
{
}

/// As long as a state other than `Up` lasts, a page follows at every rung:
/// the one after `v.sent` pages as soon as the rung is reached, and the clock
/// of the outage keeps running.
pub proof fn law_pages_while_down(v: DamperView, began: int, now: int)
    requires
        v.wf(),
        v.current != ServerState::Up,
        v.since == Some(began),
        began <= now,
    ensures
        v.pages(v.current, now) <==> now - began >= threshold(v.sent),
        v.pages(v.current, now) ==> v.after(v.current, now).sent == v.sent + 1,
        v.after(v.current, now).since == Some(began),
{
}

/// The rungs: 5, 15, 30 and 60 minutes, then every 60 minutes.
pub proof fn law_ladder(k: int)
    requires
        k >= 0,
    ensures
        threshold(0) == crate::clock::minutes(5),
        threshold(1) == crate::clock::minutes(15),
        threshold(2) == crate::clock::minutes(30),
        threshold(3) == crate::clock::minutes(60),
        k >= 3 ==> threshold(k + 1) == threshold(k) + crate::clock::minutes(60),
        threshold(k) < threshold(k + 1),
{
}

/// A confirmed recovery starts the ladder anew.
pub proof fn law_recovery_restarts_the_ladder(v: DamperView, now: int)
    requires
        v.wf(),
        v.transition(ServerState::Up) is Some,
    ensures
        v.after(ServerState::Up, now).sent == 0,
        v.after(ServerState::Up, now).since == Some(now),
{
}

/// After an instability signal at `fired`, no reading made within the
/// cooldown signals instability again, whatever the readings in between.
pub proof fn law_one_instability_signal_per_cooldown(
    v: DamperView,
    s: ServerState,
    fired: int,
    readings: Seq<(ServerState, int)>,
    r: ServerState,
    now: int,
)
    requires
        v.wf(),
        v.unstable(s, fired),
        forall|i: int|
            0 <= i < readings.len() ==> (#[trigger] readings[i]).1 < fired + crate::clock::seconds(
                INSTABILITY_COOLDOWN_SECS as int,
            ),
        now < fired + crate::clock::seconds(INSTABILITY_COOLDOWN_SECS as int),
    ensures
        !v.after(s, fired).after_all(readings).unstable(r, now),
{
    let until = fired + crate::clock::seconds(INSTABILITY_COOLDOWN_SECS as int);
    lemma_stays_quiet(v.after(s, fired), until, readings);
}

proof fn lemma_stays_quiet(v: DamperView, until: int, readings: Seq<(ServerState, int)>)
    requires
        v.quiet_until == Some(until),
        forall|i: int| 0 <= i < readings.len() ==> (#[trigger] readings[i]).1 < until,
    ensures
        v.after_all(readings).quiet_until == Some(until),
    decreases readings.len(),
{
    if readings.len() > 0 {
        let shorter = readings.drop_last();
        assert forall|i: int| 0 <= i < shorter.len() implies (#[trigger] shorter[i]).1 < until by {
            assert(shorter[i] == readings[i]);
        }
        lemma_stays_quiet(v, until, shorter);
        assert(readings.last() == readings[readings.len() - 1]);
    }
}

/// What a reading does to the confirmed state: a pending state is confirmed
/// by being read again, and by nothing else; a reading of another state than
/// the confirmed one is pending until the next.
pub proof fn law_only_a_repeated_reading_confirms(v: DamperView, s: ServerState, now: int)
    ensures
        v.pending == Some(s) ==> {
            &&& v.transition(s) == Some(s)
            &&& v.after(s, now).current == s
            &&& v.after(s, now).pending is None
        },
        v.pending != Some(s) ==> {
            &&& v.transition(s) is None
            &&& v.after(s, now).current == v.current
            &&& s == v.current ==> v.after(s, now).pending is None
            &&& s != v.current ==> v.after(s, now).pending == Some(s)
        },
{
}

/// Since when a state counts: from its confirmation, or from the first
/// reading of all; readings in between do not move it.
pub proof fn law_a_state_counts_from_its_confirmation(v: DamperView, s: ServerState, now: int)
    ensures
        v.pending == Some(s) ==> v.after(s, now).since == Some(now),
        v.pending != Some(s) && v.since is Some ==> v.after(s, now).since == v.since,
        v.pending != Some(s) && v.since is None ==> v.after(s, now).since == Some(now),
        v.after(s, now).since matches Some(began) ==> {
            &&& now >= began ==> v.lasted(s, now) == now - began
            &&& now < began ==> v.lasted(s, now) == 0
        },
{
}

/// When a page is due, whatever the reading: the state confirmed after it is
/// not `Up` and has lasted 5 minutes for the first page since the server was
/// last up, 15 for the second, 30 for the third, and then one hour more for
/// each. Only a confirmed recovery makes the count start over.
pub proof fn law_when_a_page_is_due(v: DamperView, s: ServerState, now: int)
    requires
        v.sent >= 0,
    ensures
        ({
            let after = v.after(s, now);
            let recovered = s == ServerState::Up && v.pending == Some(ServerState::Up);
            let sent = if recovered {
                0
            } else {
                v.sent
            };
            let lasted = now - after.since.unwrap();
            &&& v.pages(s, now) <==> after.current != ServerState::Up && {
                ||| sent == 0 && lasted >= 300_000_000_000
                ||| sent == 1 && lasted >= 900_000_000_000
                ||| sent == 2 && lasted >= 1_800_000_000_000
                ||| sent >= 3 && lasted >= (sent - 2) * 3_600_000_000_000
            }
            &&& v.pages(s, now) ==> after.sent == sent + 1
            &&& !v.pages(s, now) ==> after.sent == sent
        }),
{
    let sent = if s == ServerState::Up && v.pending == Some(ServerState::Up) {
        0
    } else {
        v.sent
    };
    if sent >= 3 {
        assert(threshold(sent) == (sent - 2) * 3_600_000_000_000);
        assert((sent - 2) * 3_600_000_000_000 > 0);
    }
}

/// A reading that displaces a pending state is a flap, whether it goes back
/// to the confirmed state or on to a third one. Its time is the latest of
/// those remembered, of which only ones more than five minutes old go, or the
/// oldest of sixteen. Outside a cooldown it signals instability exactly when
/// three or more of those remembered begin within the last five minutes;
/// then everything is forgotten and a cooldown of fifteen minutes starts.
pub proof fn law_a_displaced_state_is_a_flap(
    v: DamperView,
    p: ServerState,
    s: ServerState,
    now: int,
)
    requires
        v.wf(),
        v.pending == Some(p),
        s != p,
    ensures
        v.unstable(s, now) <==> (v.quiet_until matches Some(t) ==> now >= t) && exists|k: int|
            0 <= k <= v.resets.len() - 3 && now - #[trigger] v.resets[k] <= 300_000_000_000,
        v.unstable(s, now) ==> {
            &&& v.after(s, now).resets.len() == 0
            &&& v.after(s, now).quiet_until == Some(now + 900_000_000_000)
        },
        !v.unstable(s, now) ==> {
            &&& exists|k: int|
                {
                    &&& 0 <= k <= v.resets.len()
                    &&& v.after(s, now).resets == #[trigger] v.resets.skip(k).push(now)
                    &&& forall|i: int|
                        0 <= i < k ==> now - #[trigger] v.resets[i] > 300_000_000_000 || (i == 0
                            && v.resets.len() == 16)
                }
            &&& (v.quiet_until matches Some(t) && now < t) ==> v.after(s, now).quiet_until
                == v.quiet_until
            &&& (v.quiet_until matches Some(t) ==> now >= t) ==> v.after(s, now).quiet_until is None
        },
{
    let recent = fresh(v.resets, now);
    let gone = v.resets.len() - recent.len();
    lemma_fresh_suffix(v.resets, now);
    lemma_fresh_drops_the_old(v.resets, now);
    if recent.len() >= 3 {
        assert(v.resets[gone] == recent[0]);
        assert(now - v.resets[gone] <= 300_000_000_000);
    }
    if exists|k: int|
        0 <= k <= v.resets.len() - 3 && now - #[trigger] v.resets[k] <= 300_000_000_000 {
        let k = choose|k: int|
            0 <= k <= v.resets.len() - 3 && now - #[trigger] v.resets[k] <= 300_000_000_000;
        assert(k >= gone);
    }
    if !v.unstable(s, now) {
        if recent.len() == 16 {
            assert(v.resets.skip(1).push(now) == recent.push(now).skip(1));
        } else {
            assert(v.resets.skip(gone).push(now) == recent.push(now));
        }
    }
}

/// No other reading is a flap: with nothing pending, or when the pending
/// state is read again, nothing is remembered, forgotten or signalled.
pub proof fn law_other_readings_are_no_flaps(v: DamperView, s: ServerState, now: int)
    requires
        v.pending is None || v.pending == Some(s),
    ensures
        !v.unstable(s, now),
        v.after(s, now).resets == v.resets,
        v.after(s, now).quiet_until == v.quiet_until,
{
}

/// A server that keeps switching between two states, neither of them the
/// confirmed one, is unstable at the fifth reading if that comes within five
/// minutes of the second, and not before.
pub proof fn law_switching_between_two_states_is_instability(
    v: DamperView,
    a: ServerState,
    b: ServerState,
    t0: int,
    t1: int,
    t2: int,
    t3: int,
    t4: int,
)
    requires
        v.wf(),
        v.pending is None,
        v.resets.len() == 0,
        v.quiet_until is None,
        a != b,
        a != v.current,
        b != v.current,
        t0 <= t1 <= t2 <= t3 <= t4 <= t1 + 300_000_000_000,
    ensures
        !v.unstable(a, t0),
        !v.after(a, t0).unstable(b, t1),
        !v.after(a, t0).after(b, t1).unstable(a, t2),
        !v.after(a, t0).after(b, t1).after(a, t2).unstable(b, t3),
        v.after(a, t0).after(b, t1).after(a, t2).after(b, t3).unstable(a, t4),
{
    let v0 = v.after(a, t0);
    let v1 = v0.after(b, t1);
    let v2 = v1.after(a, t2);
    let v3 = v2.after(b, t3);
    assert(v0.resets.len() == 0);
    assert(v1.resets == seq![t1]);
    assert(v2.resets == seq![t1, t2]);
    assert(v3.resets == seq![t1, t2, t3]);
}

/// A server that leaves the confirmed state and returns to it four times
/// within five minutes, without the other state ever being confirmed, is
/// unstable at the fourth return, and not before.
pub proof fn law_four_returns_are_instability(
    v: DamperView,
    a: ServerState,
    leave: Seq<int>,
    back: Seq<int>,
)
    requires
        v.wf(),
        v.pending is None,
        v.resets.len() == 0,
        v.quiet_until is None,
        a != v.current,
        leave.len() == 4,
        back.len() == 4,
        back[0] <= back[1] <= back[2] <= back[3] <= back[0] + 300_000_000_000,
    ensures
        ({
            let c = v.current;
            let v1 = v.after(a, leave[0]).after(c, back[0]);
            let v2 = v1.after(a, leave[1]).after(c, back[1]);
            let v3 = v2.after(a, leave[2]).after(c, back[2]);
            &&& !v.after(a, leave[0]).unstable(c, back[0])
            &&& !v1.after(a, leave[1]).unstable(c, back[1])
            &&& !v2.after(a, leave[2]).unstable(c, back[2])
            &&& v3.after(a, leave[3]).unstable(c, back[3])
        }),
{
    let c = v.current;
    let v1 = v.after(a, leave[0]).after(c, back[0]);
    let v2 = v1.after(a, leave[1]).after(c, back[1]);
    let v3 = v2.after(a, leave[2]).after(c, back[2]);
    assert(v1.resets == seq![back[0]]);
    assert(v2.resets == seq![back[0], back[1]]);
    assert(v3.resets == seq![back[0], back[1], back[2]]);
}

/// A discarded change of state is remembered, whether it is passed over in
/// silence or not, unless it is signalled; and it is signalled as soon as it
/// falls outside a cooldown with three or more remembered ones in the window.
pub proof fn law_flaps_are_remembered(v: DamperView, s: ServerState, now: int)
    requires
        v.wf(),
        v.flaps(s),
    ensures
        v.unstable(s, now) <==> !v.quiet(now) && fresh(v.resets, now).len() >= 3,
        !v.unstable(s, now) ==> {
            let next = v.after(s, now).resets;
            &&& next.len() > 0 && next.last() == now
            &&& fresh(v.resets, now).len() < MAX_TRACKED_RESETS ==> next == fresh(
                v.resets,
                now,
            ).push(now)
        },
{
}

/// Instability means at least a fourth discarded change of state within five
/// minutes: of those that the damper remembers, three or more lie within the
/// window. This is for readings made in the order of time.
pub proof fn law_instability_needs_four_flaps(
    initial: ServerState,
    readings: Seq<(ServerState, int)>,
    s: ServerState,
    now: int,
)
    requires
        in_order(readings.push((s, now))),
    ensures
        ({
            let v = fresh_damper(initial).after_all(readings);
            let recent = fresh(v.resets, now);
            v.unstable(s, now) ==> {
                &&& v.flaps(s)
                &&& recent.len() >= 3
                &&& recent == v.resets.skip(v.resets.len() - recent.len())
                &&& forall|i: int|
                    0 <= i < recent.len() ==> now - #[trigger] recent[i]
                        <= crate::clock::minutes(5)
            }
        }),
{
    let all = readings.push((s, now));
    assert forall|i: int, j: int| 0 <= i <= j < readings.len() implies readings[i].1
        <= readings[j].1 by {
        assert(all[i] == readings[i] && all[j] == readings[j]);
    }
    lemma_resets_in_order(initial, readings);
    let v = fresh_damper(initial).after_all(readings);
    let recent = fresh(v.resets, now);
    lemma_fresh_suffix(v.resets, now);
    if v.unstable(s, now) {
        assert(crate::clock::elapsed(recent[0], now) <= crate::clock::minutes(5));
        if readings.len() > 0 {
            let last = readings.len() - 1;
            assert(all[last].1 <= all[readings.len() as int].1);
            assert(all[last] == readings[last]);
        }
        assert forall|i: int| 0 <= i < recent.len() implies now - #[trigger] recent[i]
            <= crate::clock::minutes(5) by {
            let k = v.resets.len() - recent.len();
            assert(recent[0] == v.resets[k] && recent[i] == v.resets[k + i]);
            assert(v.resets[k] <= v.resets[k + i]);
        }
    }
}

proof fn lemma_resets_in_order(initial: ServerState, readings: Seq<(ServerState, int)>)
    requires
        in_order(readings),
    ensures
        ({
            let v = fresh_damper(initial).after_all(readings);
            &&& v.wf()
            &&& forall|i: int, j: int|
                0 <= i <= j < v.resets.len() ==> #[trigger] v.resets[i] <= #[trigger] v.resets[j]
            &&& forall|i: int|
                0 <= i < v.resets.len() ==> readings.len() > 0 && #[trigger] v.resets[i]
                    <= readings.last().1
        }),
    decreases readings.len(),
{
    if readings.len() > 0 {
        let shorter = readings.drop_last();
        assert(in_order(shorter)) by {
            assert forall|i: int, j: int| 0 <= i <= j < shorter.len() implies shorter[i].1
                <= shorter[j].1 by {
                assert(shorter[i] == readings[i] && shorter[j] == readings[j]);
            }
        }
        lemma_resets_in_order(initial, shorter);
        let v = fresh_damper(initial).after_all(shorter);
        let (s, now) = readings.last();
        assert(v.after(s, now) == fresh_damper(initial).after_all(readings));
        law_consistency_is_kept(v, s, now);
        lemma_fresh_suffix(v.resets, now);
        if shorter.len() > 0 {
            assert(readings[shorter.len() - 1].1 <= readings[readings.len() - 1].1);
            assert(shorter.last() == readings[shorter.len() - 1]);
        }
    }
}

proof fn lemma_fresh_suffix(resets: Seq<int>, now: int)
    ensures
        fresh(resets, now).len() <= resets.len(),
        fresh(resets, now) == resets.skip(resets.len() - fresh(resets, now).len()),
        fresh(resets, now).len() > 0 ==> crate::clock::elapsed(fresh(resets, now)[0], now)
            <= crate::clock::seconds(FLAP_WINDOW_SECS as int),
    decreases resets.len(),
{
    if resets.len() > 0 && crate::clock::elapsed(resets[0], now) > crate::clock::seconds(
        FLAP_WINDOW_SECS as int,
    ) {
        lemma_fresh_suffix(resets.skip(1), now);
        let k = resets.len() - 1 - fresh(resets, now).len();
        assert(resets.skip(1).skip(k) == resets.skip(k + 1));
    } else {
        assert(resets.skip(0) == resets);
    }
}

proof fn lemma_fresh_drops_the_old(resets: Seq<int>, now: int)
    ensures
        forall|i: int|
            0 <= i < resets.len() - fresh(resets, now).len() ==> now - #[trigger] resets[i]
                > 300_000_000_000,
    decreases resets.len(),
{
    if resets.len() > 0 {
        let rest = resets.skip(1);
        lemma_fresh_drops_the_old(rest, now);
        assert forall|i: int|
            0 <= i < resets.len() - fresh(resets, now).len() implies now - #[trigger] resets[i]
            > 300_000_000_000 by {
            if i > 0 {
                assert(rest[i - 1] == resets[i]);
            }
        }
    }
}

// ---------------------------------------------------------------------------
// Backups
// ---------------------------------------------------------------------------

#[derive(Debug, PartialEq, Eq)]
pub enum BackupEvent {
    Succeeded,
    Failed(i64),
}

/// What a poll of the backup container reports: the outcome, at the first
/// poll after a run that finds the container stopped with a known exit code.
pub open spec fn backup_event(
    was_running: bool,
    running: bool,
    exit_code: Option<i64>,
) -> Option<BackupEvent> {
    if was_running && !running {
        match exit_code {
            Some(c) => Some(
                if c == 0 {
                    BackupEvent::Succeeded
                } else {
                    BackupEvent::Failed(c)
                },
            ),
            None => None,
        }
    } else {
        None
    }
}

/// Watches the backup container for the end of a run.
pub struct BackupWatch {
    was_running: bool,
}

impl View for BackupWatch {
    type V = bool;

    /// Whether the last poll found the container running.
    closed spec fn view(&self) -> bool {
        self.was_running
    }
}

impl Default for BackupWatch {
    fn default() -> (w: BackupWatch)
        ensures
            !w@,
    {
        BackupWatch { was_running: false }
    }
}

impl BackupWatch {
    pub fn observe(&mut self, running: bool, exit_code: Option<i64>) -> (r: Option<BackupEvent>)
        ensures
            r == backup_event(old(self)@, running, exit_code),
            final(self)@ == running,
    {
        let ev = if self.was_running && !running {
            match exit_code {
                Some(c) => if c == 0 {
                    Some(BackupEvent::Succeeded)
                } else {
                    Some(BackupEvent::Failed(c))
                },
                None => None,
            }
        } else {
            None
        };
        self.was_running = running;
        ev
    }
}

/// The end of a run is reported at most once: the poll after a report reports
/// nothing, whatever it finds.
pub proof fn law_backup_end_is_reported_once(
    was_running: bool,
    running: bool,
    exit_code: Option<i64>,
    then_running: bool,
    then_code: Option<i64>,
)
    ensures
        backup_event(was_running, running, exit_code) is Some ==> backup_event(
            running,
            then_running,
            then_code,
        ) is None,
{
}

/// What the poll after a run reports: success on the exit code zero, failure
/// with the code on any other, and nothing where the code is unknown. No
/// other poll reports anything.
pub proof fn law_the_exit_code_decides(
    was_running: bool,
    running: bool,
    exit_code: Option<i64>,
    code: i64,
)
    ensures
        backup_event(was_running, running, exit_code) == Some(BackupEvent::Succeeded) <==> (
        was_running && !running && exit_code == Some(0i64)),
        backup_event(was_running, running, exit_code) == Some(BackupEvent::Failed(code)) <==> (
        was_running && !running && exit_code == Some(code) && code != 0),
{
}

// ---------------------------------------------------------------------------
// Milestones
// ---------------------------------------------------------------------------

/// Whether a milestone, in half hours, is worth a line in the chronicle:
/// whole hours only, from the second on.
pub fn chronicle_due(half_hours: u32) -> (r: bool)
    ensures
        r == (half_hours % 2 == 0 && half_hours >= 4),
{
    half_hours % 2 == 0 && half_hours >= 4
}

/// The hours to spin the wheel with for a player who is online when a new
/// build starts: those on record, or two.
pub fn deploy_round_hours(current_session_hours: Option<u32>) -> (r: u32)
    ensures
        r == (match current_session_hours {
            Some(hours) => hours,
            None => 2,
        }),
{
    match current_session_hours {
        Some(hours) => hours,
        None => 2,
    }
}

} // verus!
