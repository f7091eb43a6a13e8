//! Session chronicle: how long each player has been on the server without a
//! break, and what to say when a full hour is reached.

use vstd::prelude::*;
use crate::clock::Moment;
use crate::text::{numeral, replace};

verus! {

/// A player has reached this many full hours.
#[derive(Debug, PartialEq, Eq, Clone)]
pub struct Announcement {
    pub player: String,
    pub hours: u32,
}

/// What is known of one player's session.
pub struct SessionView {
    /// When the player was first seen.
    pub start: int,
    /// The player was absent from the last poll.
    pub missed: bool,
    /// The highest full hour already announced; zero for none.
    pub announced: int,
}

/// Sessions by player name.
pub type Sessions = Map<Seq<char>, SessionView>;

/// The full hours between two moments.
pub open spec fn full_hours(start: int, now: int) -> int {
    crate::clock::elapsed(start, now) / crate::clock::minutes(60)
}

/// When the session of a player seen at `now` began.
pub open spec fn started(m: Sessions, name: Seq<char>, now: int) -> int {
    if m.dom().contains(name) {
        m[name].start
    } else {
        now
    }
}

/// The highest full hour announced so far for a player.
pub open spec fn announced(m: Sessions, name: Seq<char>) -> int {
    if m.dom().contains(name) {
        m[name].announced
    } else {
        0
    }
}

/// A player seen at `now` has reached a full hour, from the second on, that
/// was not announced yet.
pub open spec fn due(m: Sessions, name: Seq<char>, now: int) -> bool {
    let hours = full_hours(started(m, name, now), now);
    hours >= 2 && hours > announced(m, name)
}

/// The session of a player seen at `now`, after the poll.
pub open spec fn greeted(m: Sessions, name: Seq<char>, now: int) -> SessionView {
    SessionView {
        start: started(m, name, now),
        missed: false,
        announced: if due(m, name, now) {
            full_hours(started(m, name, now), now)
        } else {
            announced(m, name)
        },
    }
}

/// The sessions after a poll that found `present` online at `now`: those
/// present have a session, those absent keep theirs through one poll and lose
/// it at the second.
pub open spec fn after_poll(m: Sessions, present: Seq<Seq<char>>, now: int) -> Sessions {
    Map::new(
        |name: Seq<char>|
            present.contains(name) || (m.dom().contains(name) && !m[name].missed),
        |name: Seq<char>|
            if present.contains(name) {
                greeted(m, name, now)
            } else {
                SessionView { missed: true, ..m[name] }
            },
    )
}

/// What a poll announces: each player present for whom a full hour is due,
/// once, in the order of `present`.
pub open spec fn news(m: Sessions, present: Seq<Seq<char>>, now: int) -> Seq<(Seq<char>, int)>
    decreases present.len(),
{
    if present.len() == 0 {
        Seq::empty()
    } else {
        let earlier = news(m, present.drop_last(), now);
        let name = present.last();
        if due(m, name, now) && !present.drop_last().contains(name) {
            earlier.push((name, full_hours(started(m, name, now), now)))
        } else {
            earlier
        }
    }
}

/// Announcements as pairs of a name and hours.
pub open spec fn as_news(anns: Seq<Announcement>) -> Seq<(Seq<char>, int)> {
    anns.map_values(|a: Announcement| (a.player@, a.hours as int))
}

/// Announcements are told one for one, each with its player and its hours.
pub proof fn law_announcements_one_for_one(anns: Seq<Announcement>, k: int)
    ensures
        as_news(anns).len() == anns.len(),
        0 <= k < anns.len() ==> as_news(anns)[k].0 == anns[k].player@ && as_news(anns)[k].1
            == anns[k].hours,
{
}

struct PlayerSession {
    name: String,
    start: Moment,
    missed: bool,
    last_announced_hour: u32,
}

impl PlayerSession {
    spec fn model(&self) -> SessionView {
        SessionView {
            start: self.start@,
            missed: self.missed,
            announced: self.last_announced_hour as int,
        }
    }
}

/// The list holds each player of `m` once, and nobody else.
spec fn represents(v: Seq<PlayerSession>, m: Sessions) -> bool {
    &&& forall|i: int, j: int|
        0 <= i < j < v.len() ==> (#[trigger] v[i]).name@ != (#[trigger] v[j]).name@
    &&& forall|i: int|
        0 <= i < v.len() ==> m.dom().contains((#[trigger] v[i]).name@) && m[v[i].name@]
            == v[i].model()
    &&& forall|n: Seq<char>| #[trigger]
        m.dom().contains(n) ==> exists|i: int| 0 <= i < v.len() && (#[trigger] v[i]).name@ == n
}

/// Tracks each player's continuous presence across polls and decides when a
/// session reaches an hour worth announcing.
pub struct SessionTracker {
    sessions: Vec<PlayerSession>,
    model: Ghost<Sessions>,
}

impl View for SessionTracker {
    type V = Sessions;

    closed spec fn view(&self) -> Sessions {
        self.model@
    }
}

impl Default for SessionTracker {
    fn default() -> (t: SessionTracker)
        ensures
            t.wf(),
            t@ == Map::<Seq<char>, SessionView>::empty(),
    {
        SessionTracker { sessions: Vec::new(), model: Ghost(Map::empty()) }
    }
}

fn is_present(present: &[String], name: &String) -> (r: bool)
    ensures
        r == crate::text::views(present@).contains(name@),
{
    let ghost names = crate::text::views(present@);
    let mut i: usize = 0;
    while i < present.len()
        invariant
            i <= present@.len(),
            names == crate::text::views(present@),
            forall|j: int| 0 <= j < i ==> names[j] != name@,
        decreases present@.len() - i,
    {
        if present[i] == *name {
            assert(names[i as int] == name@);
            return true;
        }
        i += 1;
    }
    false
}

fn hours_since(start: Moment, now: Moment) -> (h: u32)
    ensures
        h as int == full_hours(start@, now@),
{
    let nanos: u64 = now.since(start).nanos as u64;
    (nanos / 3_600_000_000_000) as u32
}

impl SessionTracker {
    pub closed spec fn wf(&self) -> bool {
        represents(self.sessions@, self.model@)
    }

    /// Sessions begin at readings of the clock.
    pub proof fn lemma_starts(&self)
        requires
            self.wf(),
        ensures
            forall|name: Seq<char>| #[trigger]
                self@.dom().contains(name) ==> 0 <= self@[name].start <= u64::MAX,
    {
    }

    /// Feeds the names online at `now`.
    ///
    /// One missed poll does not end a session; two in a row do. Returns one
    /// announcement for each session that has just reached a new full hour,
    /// from the second on, and never repeats an hour.
    pub fn observe(&mut self, present: &[String], now: Moment) -> (anns: Vec<Announcement>)
        requires
            old(self).wf(),
        ensures
            final(self).wf(),
            final(self)@ == after_poll(old(self)@, crate::text::views(present@), now@),
            as_news(anns@) == news(old(self)@, crate::text::views(present@), now@),
    {
        let ghost names = crate::text::views(present@);
        let ghost before = self.model@;
        let mut next = self.roll_call(present);
        let ghost kept = still_known(before, names);
        let ghost mut m = kept;
        let mut anns: Vec<Announcement> = Vec::new();
        let mut i: usize = 0;
        assert(names.take(0) == Seq::<Seq<char>>::empty());
        assert(as_news(anns@) == Seq::<(Seq<char>, int)>::empty());
        assert(m == seen_so_far(before, kept, names.take(0), now@));
        while i < present.len()
            invariant
                i <= present@.len(),
                names == crate::text::views(present@),
                kept == still_known(before, names),
                m == seen_so_far(before, kept, names.take(i as int), now@),
                represents(next@, m),
                as_news(anns@) == news(before, names.take(i as int), now@),
            decreases present@.len() - i,
        {
            let ghost name = names[i as int];
            let ghost upto = names.take(i as int);
            assert(names.take(i + 1).drop_last() == upto);
            assert(names.take(i + 1).last() == name);
            assert(names.contains(name));
            assert forall|n: Seq<char>| #[trigger]
                names.take(i + 1).contains(n) <==> (upto.contains(n) || n == name) by {
                if upto.contains(n) {
                    let k = choose|k: int| 0 <= k < upto.len() && upto[k] == n;
                    assert(names.take(i + 1)[k] == n);
                }
                if n == name {
                    assert(names.take(i + 1)[i as int] == n);
                }
            }
            let at = position(&next, &present[i]);
            match at {
                None => {
                    assert(!m.dom().contains(name));
                    let ghost old_next = next@;
                    let fresh = PlayerSession {
                        name: present[i].clone(),
                        start: now,
                        missed: false,
                        last_announced_hour: 0,
                    };
                    next.push(fresh);
                    proof {
                        lemma_push(old_next, m, fresh);
                        m = m.insert(name, fresh.model());
                        assert(!before.dom().contains(name));
                        assert(full_hours(now@, now@) == 0);
                        assert(greeted(before, name, now@) == fresh.model());
                        assert(m == seen_so_far(before, kept, names.take(i + 1), now@));
                    }
                },
                Some(k) => {
                    let start = next[k].start;
                    let last = next[k].last_announced_hour;
                    let hours = hours_since(start, now);
                    assert(next@[k as int].model() == m[name]);
                    if hours >= 2 && hours > last {
                        let ghost old_next = next@;
                        let updated = PlayerSession {
                            name: present[i].clone(),
                            start: start,
                            missed: next[k].missed,
                            last_announced_hour: hours,
                        };
                        next.set(k, updated);
                        let ann = Announcement { player: present[i].clone(), hours: hours };
                        let ghost old_anns = anns@;
                        anns.push(ann);
                        proof {
                            lemma_set(old_next, m, k as int, updated);
                            assert(!upto.contains(name));
                            assert(before.dom().contains(name));
                            m = m.insert(name, updated.model());
                            assert(as_news(anns@) == as_news(old_anns).push((name, hours as int)));
                            assert(greeted(before, name, now@) == updated.model());
                            assert(m == seen_so_far(before, kept, names.take(i + 1), now@));
                        }
                    } else {
                        proof {
                            assert(m == seen_so_far(before, kept, names.take(i + 1), now@));
                            if !upto.contains(name) {
                                assert(before.dom().contains(name));
                            }
                        }
                    }
                },
            }
            i += 1;
        }
        assert(names.take(i as int) == names);
        assert(m == after_poll(before, names, now@));
        self.sessions = next;
        self.model = Ghost(m);
        anns
    }

    /// The full hours of the current session of `player`, if there is one.
    pub fn current_hours(&self, player: &String, now: Moment) -> (r: Option<u32>)
        requires
            self.wf(),
        ensures
            match r {
                Some(hours) => self@.dom().contains(player@) && hours as int == full_hours(
                    self@[player@].start,
                    now@,
                ),
                None => !self@.dom().contains(player@),
            },
    {
        match position(&self.sessions, player) {
            Some(k) => Some(hours_since(self.sessions[k].start, now)),
            None => None,
        }
    }

    /// The sessions that outlive a poll, marked with whether it missed them.
    fn roll_call(&self, present: &[String]) -> (next: Vec<PlayerSession>)
        requires
            self.wf(),
        ensures
            represents(
                next@,
                still_known(self@, crate::text::views(present@)),
            ),
    {
        let ghost names = crate::text::views(present@);
        let ghost goal = still_known(self@, names);
        let mut next: Vec<PlayerSession> = Vec::new();
        let ghost mut m: Sessions = Map::empty();
        let mut i: usize = 0;
        while i < self.sessions.len()
            invariant
                i <= self.sessions@.len(),
                self.wf(),
                names == crate::text::views(present@),
                goal == still_known(self@, names),
                represents(next@, m),
                forall|n: Seq<char>| #[trigger]
                    m.dom().contains(n) ==> goal.dom().contains(n) && m[n] == goal[n],
                forall|n: Seq<char>|
                    m.dom().contains(n) ==> exists|k: int|
                        0 <= k < i && (#[trigger] self.sessions@[k]).name@ == n,
                forall|k: int|
                    0 <= k < i && goal.dom().contains((#[trigger] self.sessions@[k]).name@)
                        ==> m.dom().contains(self.sessions@[k].name@),
            decreases self.sessions@.len() - i,
        {
            let here = is_present(present, &self.sessions[i].name);
            let ghost name = self.sessions@[i as int].name@;
            if here || !self.sessions[i].missed {
                let s = PlayerSession {
                    name: self.sessions[i].name.clone(),
                    start: self.sessions[i].start,
                    missed: !here,
                    last_announced_hour: self.sessions[i].last_announced_hour,
                };
                let ghost old_next = next@;
                next.push(s);
                proof {
                    assert(!m.dom().contains(name));
                    lemma_push(old_next, m, s);
                    m = m.insert(name, s.model());
                    assert(goal.dom().contains(name));
                    assert(goal[name] == s.model());
                }
            } else {
                assert(!goal.dom().contains(name));
            }
            i += 1;
        }
        assert(m =~= goal) by {
            assert forall|n: Seq<char>| goal.dom().contains(n) implies m.dom().contains(n) by {
                assert(self.model@.dom().contains(n));
                let k = choose|k: int|
                    0 <= k < self.sessions@.len() && (#[trigger] self.sessions@[k]).name@ == n;
                assert(self.sessions@[k].name@ == n);
            }
        }
        next
    }
}

/// The sessions of `m` that a poll with `names` present does not end.
spec fn still_known(m: Sessions, names: Seq<Seq<char>>) -> Sessions {
    Map::new(
        |n: Seq<char>| m.dom().contains(n) && (names.contains(n) || !m[n].missed),
        |n: Seq<char>| SessionView { missed: !names.contains(n), ..m[n] },
    )
}

/// The sessions after the players in `upto` were greeted.
spec fn seen_so_far(
    before: Sessions,
    kept: Sessions,
    upto: Seq<Seq<char>>,
    now: int,
) -> Sessions {
    Map::new(
        |n: Seq<char>| kept.dom().contains(n) || upto.contains(n),
        |n: Seq<char>|
            if upto.contains(n) {
                greeted(before, n, now)
            } else {
                kept[n]
            },
    )
}

fn position(v: &Vec<PlayerSession>, name: &String) -> (r: Option<usize>)
    ensures
        match r {
            Some(k) => k < v@.len() && v@[k as int].name@ == name@,
            None => forall|k: int| 0 <= k < v@.len() ==> (#[trigger] v@[k]).name@ != name@,
        },
{
    let mut i: usize = 0;
    while i < v.len()
        invariant
            i <= v@.len(),
            forall|k: int| 0 <= k < i ==> (#[trigger] v@[k]).name@ != name@,
        decreases v@.len() - i,
    {
        if v[i].name == *name {
            return Some(i);
        }
        i += 1;
    }
    None
}

proof fn lemma_push(v: Seq<PlayerSession>, m: Sessions, s: PlayerSession)
    requires
        represents(v, m),
        !m.dom().contains(s.name@),
    ensures
        represents(v.push(s), m.insert(s.name@, s.model())),
{
    let w = v.push(s);
    let mm = m.insert(s.name@, s.model());
    assert forall|n: Seq<char>| #[trigger] mm.dom().contains(n) implies exists|i: int|
        0 <= i < w.len() && (#[trigger] w[i]).name@ == n by {
        if n == s.name@ {
            assert(w[v.len() as int].name@ == n);
        } else {
            assert(m.dom().contains(n));
            let i = choose|i: int| 0 <= i < v.len() && (#[trigger] v[i]).name@ == n;
            assert(w[i].name@ == n);
        }
    }
}

proof fn lemma_set(v: Seq<PlayerSession>, m: Sessions, k: int, s: PlayerSession)
    requires
        represents(v, m),
        0 <= k < v.len(),
        v[k].name@ == s.name@,
    ensures
        represents(v.update(k, s), m.insert(s.name@, s.model())),
{
    let w = v.update(k, s);
    let mm = m.insert(s.name@, s.model());
    assert forall|i: int, j: int| 0 <= i < j < w.len() implies (#[trigger] w[i]).name@ != (
    #[trigger] w[j]).name@ by {
        assert(v[i].name@ != v[j].name@);
    }
    assert forall|i: int| 0 <= i < w.len() implies mm.dom().contains((#[trigger] w[i]).name@)
        && mm[w[i].name@] == w[i].model() by {
        assert(m.dom().contains(v[i].name@));
        if i != k {
            assert(v[i].name@ != v[k].name@);
        }
    }
    assert forall|n: Seq<char>| #[trigger] mm.dom().contains(n) implies exists|i: int|
        0 <= i < w.len() && (#[trigger] w[i]).name@ == n by {
        if n == s.name@ {
            assert(w[k].name@ == n);
        } else {
            assert(m.dom().contains(n));
            let i = choose|i: int| 0 <= i < v.len() && (#[trigger] v[i]).name@ == n;
            assert(w[i].name@ == n);
        }
    }
}

// ---------------------------------------------------------------------------
// Laws of the tracker
// ---------------------------------------------------------------------------

/// The sessions after a series of polls.
pub open spec fn after_polls(m: Sessions, polls: Seq<(Seq<Seq<char>>, int)>) -> Sessions
    decreases polls.len(),
{
    if polls.len() == 0 {
        m
    } else {
        after_poll(after_polls(m, polls.drop_last()), polls.last().0, polls.last().1)
    }
}

/// One missed poll does not touch the clock of a session: a player who was
/// there, is absent once and comes back goes on from the same start.
pub proof fn law_one_missed_poll_is_tolerated(
    m: Sessions,
    name: Seq<char>,
    without: Seq<Seq<char>>,
    t1: int,
    with: Seq<Seq<char>>,
    t2: int,
)
    requires
        m.dom().contains(name),
        !m[name].missed,
        !without.contains(name),
        with.contains(name),
    ensures
        ({
            let back = after_poll(after_poll(m, without, t1), with, t2);
            back.dom().contains(name) && back[name].start == m[name].start && !back[name].missed
        }),
{
}

/// Two missed polls in a row end a session: the player's next appearance
/// starts a new one, and announces nothing.
pub proof fn law_two_missed_polls_end_the_session(
    m: Sessions,
    name: Seq<char>,
    p1: Seq<Seq<char>>,
    t1: int,
    p2: Seq<Seq<char>>,
    t2: int,
    t3: int,
)
    requires
        !p1.contains(name),
        !p2.contains(name),
    ensures
        ({
            let gone = after_poll(after_poll(m, p1, t1), p2, t2);
            &&& !gone.dom().contains(name)
            &&& started(gone, name, t3) == t3
            &&& !due(gone, name, t3)
        }),
{
    assert(full_hours(t3, t3) == 0);
}

/// Whoever is announced is present, has been there for exactly the announced
/// number of full hours, at least two, and that is more than was announced
/// before; and everyone present for whom this holds is announced.
pub proof fn law_announcements(m: Sessions, present: Seq<Seq<char>>, now: int)
    ensures
        forall|name: Seq<char>, hours: int| #[trigger]
            news(m, present, now).contains((name, hours)) <==> {
                &&& present.contains(name)
                &&& hours == full_hours(started(m, name, now), now)
                &&& hours >= 2
                &&& hours > announced(m, name)
            },
    decreases present.len(),
{
    let all = news(m, present, now);
    if present.len() == 0 {
        assert forall|name: Seq<char>, hours: int| !#[trigger] all.contains((name, hours)) by {}
    } else {
        let fewer = present.drop_last();
        let last = present.last();
        law_announcements(m, fewer, now);
        let earlier = news(m, fewer, now);
        assert forall|name: Seq<char>| #[trigger]
            present.contains(name) <==> (fewer.contains(name) || name == last) by {
            if fewer.contains(name) {
                let k = choose|k: int| 0 <= k < fewer.len() && fewer[k] == name;
                assert(present[k] == name);
            }
            if present.contains(name) {
                let k = choose|k: int| 0 <= k < present.len() && present[k] == name;
                if k < fewer.len() {
                    assert(fewer[k] == name);
                }
            }
            assert(present[present.len() - 1] == last);
        }
        let hours_of_last = full_hours(started(m, last, now), now);
        if due(m, last, now) && !fewer.contains(last) {
            assert forall|x: (Seq<char>, int)| #[trigger]
                all.contains(x) <==> (earlier.contains(x) || x == (last, hours_of_last)) by {
                if earlier.contains(x) {
                    let k = choose|k: int| 0 <= k < earlier.len() && earlier[k] == x;
                    assert(all[k] == x);
                }
                if x == (last, hours_of_last) {
                    assert(all[earlier.len() as int] == x);
                }
                if all.contains(x) {
                    let k = choose|k: int| 0 <= k < all.len() && all[k] == x;
                    if k < earlier.len() {
                        assert(earlier[k] == x);
                    }
                }
            }
        }
        assert forall|name: Seq<char>, hours: int| #[trigger] all.contains((name, hours)) <==> {
            &&& present.contains(name)
            &&& hours == full_hours(started(m, name, now), now)
            &&& hours >= 2
            &&& hours > announced(m, name)
        } by {
            assert(earlier.contains((name, hours)) <==> {
                &&& fewer.contains(name)
                &&& hours == full_hours(started(m, name, now), now)
                &&& hours >= 2
                &&& hours > announced(m, name)
            });
        }
    }
}

/// Which hour is announced, on the clock: a player who is present, and has
/// been since `start`, is announced with the hour `h` for which `h` hours have
/// passed and the next one has not, from the second on and if it is above the
/// last one announced. Whoever has just come is not announced.
pub proof fn law_the_clock_decides_the_hour(
    m: Sessions,
    present: Seq<Seq<char>>,
    now: int,
    name: Seq<char>,
    h: int,
)
    ensures
        news(m, present, now).contains((name, h)) <==> {
            &&& present.contains(name)
            &&& m.dom().contains(name)
            &&& h >= 2
            &&& h > m[name].announced
            &&& h * 3_600_000_000_000 <= now - m[name].start < (h + 1) * 3_600_000_000_000
        },
{
    law_announcements(m, present, now);
    let start = started(m, name, now);
    law_full_hours(start, now, h);
    if !m.dom().contains(name) {
        law_full_hours(now, now, h);
    }
}

/// The full hours of a session, on the clock: `h` hours have passed and the
/// next one has not; none if the clock stands before the start.
pub proof fn law_full_hours(start: int, now: int, h: int)
    ensures
        now >= start ==> (full_hours(start, now) == h <==> h * 3_600_000_000_000 <= now - start < (h
            + 1) * 3_600_000_000_000),
        now < start ==> full_hours(start, now) == 0,
{
    assert(crate::clock::minutes(60) == 3_600_000_000_000);
}

/// What a poll does to one player's session. It lives on, or begins, with the
/// player's presence; an absence is forgiven once; nothing but the announced
/// hour changes in a session that goes on.
pub proof fn law_what_a_poll_does(m: Sessions, present: Seq<Seq<char>>, now: int, name: Seq<char>)
    ensures
        ({
            let next = after_poll(m, present, now);
            &&& next.dom().contains(name) <==> present.contains(name) || (m.dom().contains(name)
                && !m[name].missed)
            &&& next.dom().contains(name) ==> next[name].missed == !present.contains(name)
            &&& next.dom().contains(name) && m.dom().contains(name) ==> next[name].start
                == m[name].start
            &&& next.dom().contains(name) && !m.dom().contains(name) ==> next[name].start == now
                && next[name].announced == 0
            &&& !present.contains(name) && next.dom().contains(name) ==> next[name].announced
                == m[name].announced
        }),
{
    law_full_hours(now, now, 0);
}

/// The hour that a poll announces is the one it takes down as announced, and
/// without an announcement that does not change.
pub proof fn law_an_announced_hour_is_taken_down(
    m: Sessions,
    present: Seq<Seq<char>>,
    now: int,
    name: Seq<char>,
    h: int,
)
    requires
        m.dom().contains(name),
        present.contains(name),
    ensures
        news(m, present, now).contains((name, h)) ==> after_poll(m, present, now)[name].announced
            == h,
        (forall|other: int| !#[trigger] news(m, present, now).contains((name, other)))
            ==> after_poll(m, present, now)[name].announced == m[name].announced,
{
    law_announcements(m, present, now);
    let hours = full_hours(started(m, name, now), now);
    assert(due(m, name, now) ==> news(m, present, now).contains((name, hours)));
}

/// Nobody is announced twice in a poll, and those announced stand in the
/// order in which the poll first names them.
pub proof fn law_news_follow_the_poll(
    m: Sessions,
    present: Seq<Seq<char>>,
    now: int,
    i: int,
    j: int,
)
    requires
        0 <= i < j < news(m, present, now).len(),
    ensures
        news(m, present, now)[i].0 != news(m, present, now)[j].0,
        exists|a: int, b: int|
            {
                &&& 0 <= a < b < present.len()
                &&& #[trigger] present[a] == news(m, present, now)[i].0
                &&& #[trigger] present[b] == news(m, present, now)[j].0
                &&& !present.take(b).contains(news(m, present, now)[j].0)
            },
    decreases present.len(),
{
    let fewer = present.drop_last();
    let earlier = news(m, fewer, now);
    let all = news(m, present, now);
    let last = present.len() - 1;
    if j < earlier.len() {
        law_news_follow_the_poll(m, fewer, now, i, j);
        let (a, b) = choose|a: int, b: int|
            {
                &&& 0 <= a < b < fewer.len()
                &&& #[trigger] fewer[a] == earlier[i].0
                &&& #[trigger] fewer[b] == earlier[j].0
                &&& !fewer.take(b).contains(earlier[j].0)
            };
        assert(fewer.take(b) == present.take(b));
        assert(present[a] == all[i].0 && present[b] == all[j].0);
    } else {
        law_announcements(m, fewer, now);
        assert(earlier.contains((earlier[i].0, earlier[i].1)));
        let a = choose|a: int| 0 <= a < fewer.len() && fewer[a] == earlier[i].0;
        assert(present.take(last) == fewer);
        assert(present[a] == all[i].0 && present[last] == all[j].0);
    }
}

/// An hour announced in a session is never announced in it again: as long as
/// the session goes on, through whatever polls, only higher hours follow.
pub proof fn law_no_hour_is_announced_twice(
    m: Sessions,
    name: Seq<char>,
    hour: int,
    present: Seq<Seq<char>>,
    now: int,
    polls: Seq<(Seq<Seq<char>>, int)>,
    then_present: Seq<Seq<char>>,
    then: int,
    then_hour: int,
)
    requires
        news(m, present, now).contains((name, hour)),
        forall|k: int|
            0 <= k <= polls.len() ==> #[trigger] after_polls(
                after_poll(m, present, now),
                polls.take(k),
            ).dom().contains(name),
        news(after_polls(after_poll(m, present, now), polls), then_present, then).contains(
            (name, then_hour),
        ),
    ensures
        then_hour > hour,
{
    law_announcements(m, present, now);
    let next = after_poll(m, present, now);
    lemma_announced_grows(next, name, polls);
    law_announcements(after_polls(next, polls), then_present, then);
    assert(polls.take(polls.len() as int) == polls);
}

proof fn lemma_announced_grows(
    m: Sessions,
    name: Seq<char>,
    polls: Seq<(Seq<Seq<char>>, int)>,
)
    requires
        forall|k: int|
            0 <= k <= polls.len() ==> #[trigger] after_polls(m, polls.take(k)).dom().contains(name),
    ensures
        m.dom().contains(name),
        after_polls(m, polls).dom().contains(name),
        after_polls(m, polls)[name].announced >= m[name].announced,
    decreases polls.len(),
{
    assert(polls.take(0) == Seq::<(Seq<Seq<char>>, int)>::empty());
    assert(after_polls(m, polls.take(0)).dom().contains(name));
    if polls.len() > 0 {
        let fewer = polls.drop_last();
        assert forall|k: int| 0 <= k <= fewer.len() implies #[trigger] after_polls(
            m,
            fewer.take(k),
        ).dom().contains(name) by {
            assert(fewer.take(k) == polls.take(k));
            assert(after_polls(m, polls.take(k)).dom().contains(name));
        }
        lemma_announced_grows(m, name, fewer);
        assert(polls.take(polls.len() as int) == polls);
        assert(after_polls(m, polls.take(polls.len() as int)).dom().contains(name));
    }
}

// ---------------------------------------------------------------------------
// What to say
// ---------------------------------------------------------------------------

pub const TIER_2H: [&'static str; 4] = [
    ":hourglass_flowing_sand: ¡Dos horas cumplidas! **{player}** cabalga sin desmontar por la ínsula, y hasta el cronista de esta historia alza la pluma en señal de admiración.",
    ":hourglass_flowing_sand: Dos horas lleva **{player}** en la brecha, firme como Amadís de Gaula en sus mejores páginas. Buen comienzo de hazaña.",
    ":hourglass_flowing_sand: Reparad, vuestras mercedes: **{player}** suma ya dos horas de porfía. Promete ser jornada memorable.",
    ":hourglass_flowing_sand: A las dos horas de justa, **{player}** aún no pide cuartel. Así empiezan las grandes gestas.",
];

pub const TIER_3H: [&'static str; 4] = [
    ":thinking: Tres horas ya, y **{player}** no da tregua. Empieza uno a preguntarse si tanto denuedo es hazaña o pura tozudez.",
    ":thinking: A las tres horas, hasta el más pintado caballero suele parar a beber agua. **{player}**, sin embargo, sigue en danza.",
    ":thinking: Tres horas de brega lleva ya **{player}**. Quien mucho abarca, dicen, poco aprieta el mando de salir a estirar las piernas.",
    ":thinking: Van tres horas y **{player}** sigue en pie de guerra. El cronista empieza a tomar notas con una ceja alzada.",
];

pub const TIER_4H: [&'static str; 4] = [
    ":horse: Cuatro horas cumplidas. A esta altura, el pobre Rocinante ya habría pedido cebada y una siesta a la sombra; **{player}** ni se inmuta.",
    ":horse: Ni el rocín más sufrido aguanta cuatro horas sin un respiro, y sin embargo **{player}** sigue en la silla. Admirable, o temerario.",
    ":horse: Rocinante, que todo lo sufre, llevaría ya cuatro horas cojeando hacia el establo. **{player}** ni lo piensa siquiera.",
    ":horse: Cuatro horas de cabalgata continua. Hasta las bestias de carga tienen su turno de descanso; **{player}**, al parecer, no lo necesita.",
];

pub const TIER_5H: [&'static str; 4] = [
    ":wind_chime: Cinco horas al pie del cañón, y ahora son los propios molinos los que se preguntan si **{player}** se encuentra bien.",
    ":wind_chime: Cinco horas ya. Los gigantes —o molinos, según se mire— empiezan a mostrar preocupación genuina por **{player}**.",
    ":wind_chime: A las cinco horas de justa continua, hasta el viento que mueve las aspas se detiene a mirar con lástima a **{player}**.",
    ":wind_chime: Cinco horas sin desmontar. Las aspas del molino giran más despacio, como si también ellas quisieran preguntar: ¿todo bien por allá, **{player}**?",
];

pub const TIER_6H: [&'static str; 4] = [
    ":stew: Seis horas sin desmontar. Sancho Panza, de haber estado presente, ya habría sacado la bota de vino y un tasajo, insistiendo a **{player}** en que parase a comer algo.",
    ":stew: A las seis horas hasta el escudero más paciente pierde la paciencia: Sancho pediría ya un alto para el potaje, con **{player}** de convidado de honor.",
    ":stew: Seis horas de aventura corrida. En algún lugar, Sancho suspira y murmura que ni el mejor caballero pelea con la panza vacía. Va por ti, **{player}**.",
    ":stew: Seis horas. Sancho ofrece, muy solemne, su propio potaje a cambio de que **{player}** se siente cinco minutos.",
];

pub const TIER_7H: [&'static str; 4] = [
    ":ghost: Siete horas. Empieza a dudarse si **{player}** es aún hidalgo de carne y hueso, o ya solo el fantasma errante de su propio personaje.",
    ":ghost: A las siete horas la línea entre caballero y espectro se difumina; **{player}** vaga por la ínsula como alma que ni el propio cronista sabe si respira.",
    ":ghost: Siete horas sin tregua. Uno ya no sabe si mira a **{player}** o a su sombra, condenada a errar sin descanso por estos pagos.",
    ":ghost: Siete horas cumplidas. **{player}** ha cruzado la frontera invisible entre la vigilia y la leyenda, y nadie sabe bien de qué lado quedó.",
];

pub const TIER_8H: [&'static str; 5] = [
    ":briefcase: ¡Ocho horas, por mis barbas! Sugiere este cronista, con todo respeto, que **{player}** considere un oficio honrado, toque pasto de verdad y recuerde que hasta Dulcinea ha empezado a preguntar por su paradero.",
    ":briefcase: Ocho horas cumplidas. Ni Don Quijote, en sus delirios más largos, pasó tanto tiempo sin bajar del caballo. Vuestra merced, **{player}**, quizá debería probar un oficio honrado — y ver el sol, que existe.",
    ":briefcase: A las ocho horas se decreta lo siguiente: **{player}** necesita tocar pasto real, buscarse un oficio honrado, y llamar a Dulcinea antes de que esta pierda la paciencia.",
    ":briefcase: Ocho horas sin desmontar. Este escribano recomienda, muy seriamente, que **{player}** deje la lanza, tome el aire, y considere que hasta los caballeros andantes cobraban por sus hazañas.",
    ":briefcase: Ocho horas. Se abre convocatoria pública: **{player}** busca oficio honrado, se ofrece disponibilidad inmediata, motivo del cambio: Dulcinea ya no contesta los mensajes.",
];

pub const TIER_ROAST: [&'static str; 6] = [
    ":rotating_light: {hours} horas y contando. **{player}**, a este paso el yelmo de Mambrino le va a salir raíces.",
    ":rotating_light: {hours} horas de porfía. Ya ni los molinos lo consideran caballero: lo consideran parte del paisaje.",
    ":rotating_light: {hours} horas. Dulcinea ha mandado un segundo mensajero preguntando si **{player}** sigue con vida.",
    ":rotating_light: {hours} horas sin bajar del caballo. Sancho ya se comió el tasajo él solo, hastiado de esperar a **{player}**.",
    ":rotating_light: {hours} horas cumplidas. A este ritmo, **{player}** logrará el récord que ningún hidalgo de la Mancha quiso jamás.",
    ":rotating_light: {hours} horas. El propio cronista de esta historia empieza a sospechar que **{player}** ha confundido la ínsula con su morada permanente.",
];

/// The lines for a session of `hours` full hours.
pub open spec fn tier(hours: u32) -> Seq<&'static str> {
    if hours <= 2 {
        TIER_2H@
    } else if hours == 3 {
        TIER_3H@
    } else if hours == 4 {
        TIER_4H@
    } else if hours == 5 {
        TIER_5H@
    } else if hours == 6 {
        TIER_6H@
    } else if hours == 7 {
        TIER_7H@
    } else if hours == 8 {
        TIER_8H@
    } else {
        TIER_ROAST@
    }
}

/// Which of `n` lines a player hears: name length plus hours, in 32-bit
/// arithmetic, modulo `n`.
pub open spec fn turn(player: Seq<char>, hours: u32, n: int) -> int {
    ((player.len() % 0x1_0000_0000 + hours) % 0x1_0000_0000) % n
}

/// A line with the player's name and the hours filled in.
pub open spec fn filled(line: Seq<char>, player: Seq<char>, hours: u32) -> Seq<char> {
    crate::fill::filled(
        line,
        "{player}"@,
        player,
        "{hours}"@,
        crate::text::decimal(hours as nat),
    )
}

/// What is said of a player who reaches `hours` full hours.
pub open spec fn message(player: Seq<char>, hours: u32) -> Seq<char> {
    filled(tier(hours)[turn(player, hours, tier(hours).len() as int)]@, player, hours)
}

fn pick(pool: &[&'static str], player: &str, hours: u32) -> (r: &'static str)
    requires
        pool@.len() > 0,
    ensures
        r == pool@[turn(player@, hours, pool@.len() as int)],
{
    let length: u64 = player.unicode_len() as u64;
    let low: u32 = (length % 0x1_0000_0000) as u32;
    let sum: u64 = low as u64 + hours as u64;
    let idx: u64 = (sum % 0x1_0000_0000) % (pool.len() as u64);
    pool[idx as usize]
}

/// A line for `player` reaching `hours` full hours. The same player and hour
/// always give the same line; below two hours the two-hour lines serve.
pub fn session_message(player: &str, hours: u32) -> (r: String)
    ensures
        r@ == message(player@, hours),
{
    proof {
        reveal_strlit("{player}");
        reveal_strlit("{hours}");
    }
    let line = match hours {
        0 | 1 | 2 => pick(&TIER_2H, player, hours),
        3 => pick(&TIER_3H, player, hours),
        4 => pick(&TIER_4H, player, hours),
        5 => pick(&TIER_5H, player, hours),
        6 => pick(&TIER_6H, player, hours),
        7 => pick(&TIER_7H, player, hours),
        8 => pick(&TIER_8H, player, hours),
        _ => pick(&TIER_ROAST, player, hours),
    };
    let named = replace(line, "{player}", player);
    let number = numeral(hours as u128);
    replace(named.as_str(), "{hours}", number.as_str())
}

// ---------------------------------------------------------------------------
// Laws of the lines
// ---------------------------------------------------------------------------

/// The braces of a line belong to its placeholders, and it begins with the
/// given words, which hold no brace.
spec fn sound(line: Seq<char>, opening: Seq<char>) -> bool {
    &&& crate::fill::braced(line, "{player}"@, "{hours}"@)
    &&& opening.len() <= line.len()
    &&& line.take(opening.len() as int) == opening
    &&& crate::fill::bare(opening)
}

/// The player's name is to be put into a line.
spec fn names_player(line: Seq<char>) -> bool {
    exists|at: int| crate::text::occurs_at(line, "{player}"@, at)
}

proof fn lemma_placeholders()
    ensures
        crate::fill::told_apart("{player}"@, "{hours}"@),
{
    reveal_strlit("{player}");
    reveal_strlit("{hours}");
}

#[verifier::spinoff_prover]
proof fn lemma_tier_2h(k: int)
    requires
        0 <= k < TIER_2H@.len(),
    ensures
        sound(TIER_2H@[k]@, ":hourglass_flowing_sand: "@),
        names_player(TIER_2H@[k]@),
{
    reveal_strlit("{player}");
    reveal_strlit("{hours}");
    reveal_strlit(":hourglass_flowing_sand: ");
    if k == 0 {
        reveal_strlit(":hourglass_flowing_sand: ¡Dos horas cumplidas! **{player}** cabalga sin desmontar por la ínsula, y hasta el cronista de esta historia alza la pluma en señal de admiración.");
        crate::fill::lemma_braced(TIER_2H@[k]@, "{player}"@, 49, "{hours}"@, -1);
    }
    if k == 1 {
        reveal_strlit(":hourglass_flowing_sand: Dos horas lleva **{player}** en la brecha, firme como Amadís de Gaula en sus mejores páginas. Buen comienzo de hazaña.");
        crate::fill::lemma_braced(TIER_2H@[k]@, "{player}"@, 43, "{hours}"@, -1);
    }
    if k == 2 {
        reveal_strlit(":hourglass_flowing_sand: Reparad, vuestras mercedes: **{player}** suma ya dos horas de porfía. Promete ser jornada memorable.");
        crate::fill::lemma_braced(TIER_2H@[k]@, "{player}"@, 55, "{hours}"@, -1);
    }
    if k == 3 {
        reveal_strlit(":hourglass_flowing_sand: A las dos horas de justa, **{player}** aún no pide cuartel. Así empiezan las grandes gestas.");
        crate::fill::lemma_braced(TIER_2H@[k]@, "{player}"@, 53, "{hours}"@, -1);
    }
    assert(TIER_2H@[k]@.take(25) == ":hourglass_flowing_sand: "@);
}

#[verifier::spinoff_prover]
proof fn lemma_tier_3h(k: int)
    requires
        0 <= k < TIER_3H@.len(),
    ensures
        sound(TIER_3H@[k]@, ":thinking: "@),
        names_player(TIER_3H@[k]@),
{
    reveal_strlit("{player}");
    reveal_strlit("{hours}");
    reveal_strlit(":thinking: ");
    if k == 0 {
        reveal_strlit(":thinking: Tres horas ya, y **{player}** no da tregua. Empieza uno a preguntarse si tanto denuedo es hazaña o pura tozudez.");
        crate::fill::lemma_braced(TIER_3H@[k]@, "{player}"@, 30, "{hours}"@, -1);
    }
    if k == 1 {
        reveal_strlit(":thinking: A las tres horas, hasta el más pintado caballero suele parar a beber agua. **{player}**, sin embargo, sigue en danza.");
        crate::fill::lemma_braced(TIER_3H@[k]@, "{player}"@, 88, "{hours}"@, -1);
    }
    if k == 2 {
        reveal_strlit(":thinking: Tres horas de brega lleva ya **{player}**. Quien mucho abarca, dicen, poco aprieta el mando de salir a estirar las piernas.");
        crate::fill::lemma_braced(TIER_3H@[k]@, "{player}"@, 42, "{hours}"@, -1);
    }
    if k == 3 {
        reveal_strlit(":thinking: Van tres horas y **{player}** sigue en pie de guerra. El cronista empieza a tomar notas con una ceja alzada.");
        crate::fill::lemma_braced(TIER_3H@[k]@, "{player}"@, 30, "{hours}"@, -1);
    }
    assert(TIER_3H@[k]@.take(11) == ":thinking: "@);
}

#[verifier::spinoff_prover]
proof fn lemma_tier_4h(k: int)
    requires
        0 <= k < TIER_4H@.len(),
    ensures
        sound(TIER_4H@[k]@, ":horse: "@),
        names_player(TIER_4H@[k]@),
{
    reveal_strlit("{player}");
    reveal_strlit("{hours}");
    reveal_strlit(":horse: ");
    if k == 0 {
        reveal_strlit(":horse: Cuatro horas cumplidas. A esta altura, el pobre Rocinante ya habría pedido cebada y una siesta a la sombra; **{player}** ni se inmuta.");
        crate::fill::lemma_braced(TIER_4H@[k]@, "{player}"@, 118, "{hours}"@, -1);
    }
    if k == 1 {
        reveal_strlit(":horse: Ni el rocín más sufrido aguanta cuatro horas sin un respiro, y sin embargo **{player}** sigue en la silla. Admirable, o temerario.");
        crate::fill::lemma_braced(TIER_4H@[k]@, "{player}"@, 85, "{hours}"@, -1);
    }
    if k == 2 {
        reveal_strlit(":horse: Rocinante, que todo lo sufre, llevaría ya cuatro horas cojeando hacia el establo. **{player}** ni lo piensa siquiera.");
        crate::fill::lemma_braced(TIER_4H@[k]@, "{player}"@, 92, "{hours}"@, -1);
    }
    if k == 3 {
        reveal_strlit(":horse: Cuatro horas de cabalgata continua. Hasta las bestias de carga tienen su turno de descanso; **{player}**, al parecer, no lo necesita.");
        crate::fill::lemma_braced(TIER_4H@[k]@, "{player}"@, 102, "{hours}"@, -1);
    }
    assert(TIER_4H@[k]@.take(8) == ":horse: "@);
}

#[verifier::spinoff_prover]
proof fn lemma_tier_5h(k: int)
    requires
        0 <= k < TIER_5H@.len(),
    ensures
        sound(TIER_5H@[k]@, ":wind_chime: "@),
        names_player(TIER_5H@[k]@),
{
    reveal_strlit("{player}");
    reveal_strlit("{hours}");
    reveal_strlit(":wind_chime: ");
    if k == 0 {
        reveal_strlit(":wind_chime: Cinco horas al pie del cañón, y ahora son los propios molinos los que se preguntan si **{player}** se encuentra bien.");
        crate::fill::lemma_braced(TIER_5H@[k]@, "{player}"@, 101, "{hours}"@, -1);
    }
    if k == 1 {
        reveal_strlit(":wind_chime: Cinco horas ya. Los gigantes —o molinos, según se mire— empiezan a mostrar preocupación genuina por **{player}**.");
        crate::fill::lemma_braced(TIER_5H@[k]@, "{player}"@, 115, "{hours}"@, -1);
    }
    if k == 2 {
        reveal_strlit(":wind_chime: A las cinco horas de justa continua, hasta el viento que mueve las aspas se detiene a mirar con lástima a **{player}**.");
        crate::fill::lemma_braced(TIER_5H@[k]@, "{player}"@, 121, "{hours}"@, -1);
    }
    if k == 3 {
        reveal_strlit(":wind_chime: Cinco horas sin desmontar. Las aspas del molino giran más despacio, como si también ellas quisieran preguntar: ¿todo bien por allá, **{player}**?");
        crate::fill::lemma_braced(TIER_5H@[k]@, "{player}"@, 147, "{hours}"@, -1);
    }
    assert(TIER_5H@[k]@.take(13) == ":wind_chime: "@);
}

#[verifier::spinoff_prover]
proof fn lemma_tier_6h(k: int)
    requires
        0 <= k < TIER_6H@.len(),
    ensures
        sound(TIER_6H@[k]@, ":stew: "@),
        names_player(TIER_6H@[k]@),
{
    reveal_strlit("{player}");
    reveal_strlit("{hours}");
    reveal_strlit(":stew: ");
    if k == 0 {
        reveal_strlit(":stew: Seis horas sin desmontar. Sancho Panza, de haber estado presente, ya habría sacado la bota de vino y un tasajo, insistiendo a **{player}** en que parase a comer algo.");
        crate::fill::lemma_braced(TIER_6H@[k]@, "{player}"@, 135, "{hours}"@, -1);
    }
    if k == 1 {
        reveal_strlit(":stew: A las seis horas hasta el escudero más paciente pierde la paciencia: Sancho pediría ya un alto para el potaje, con **{player}** de convidado de honor.");
        crate::fill::lemma_braced(TIER_6H@[k]@, "{player}"@, 124, "{hours}"@, -1);
    }
    if k == 2 {
        reveal_strlit(":stew: Seis horas de aventura corrida. En algún lugar, Sancho suspira y murmura que ni el mejor caballero pelea con la panza vacía. Va por ti, **{player}**.");
        crate::fill::lemma_braced(TIER_6H@[k]@, "{player}"@, 145, "{hours}"@, -1);
    }
    if k == 3 {
        reveal_strlit(":stew: Seis horas. Sancho ofrece, muy solemne, su propio potaje a cambio de que **{player}** se siente cinco minutos.");
        crate::fill::lemma_braced(TIER_6H@[k]@, "{player}"@, 82, "{hours}"@, -1);
    }
    assert(TIER_6H@[k]@.take(7) == ":stew: "@);
}

#[verifier::spinoff_prover]
proof fn lemma_tier_7h(k: int)
    requires
        0 <= k < TIER_7H@.len(),
    ensures
        sound(TIER_7H@[k]@, ":ghost: "@),
        names_player(TIER_7H@[k]@),
{
    reveal_strlit("{player}");
    reveal_strlit("{hours}");
    reveal_strlit(":ghost: ");
    if k == 0 {
        reveal_strlit(":ghost: Siete horas. Empieza a dudarse si **{player}** es aún hidalgo de carne y hueso, o ya solo el fantasma errante de su propio personaje.");
        crate::fill::lemma_braced(TIER_7H@[k]@, "{player}"@, 44, "{hours}"@, -1);
    }
    if k == 1 {
        reveal_strlit(":ghost: A las siete horas la línea entre caballero y espectro se difumina; **{player}** vaga por la ínsula como alma que ni el propio cronista sabe si respira.");
        crate::fill::lemma_braced(TIER_7H@[k]@, "{player}"@, 77, "{hours}"@, -1);
    }
    if k == 2 {
        reveal_strlit(":ghost: Siete horas sin tregua. Uno ya no sabe si mira a **{player}** o a su sombra, condenada a errar sin descanso por estos pagos.");
        crate::fill::lemma_braced(TIER_7H@[k]@, "{player}"@, 59, "{hours}"@, -1);
    }
    if k == 3 {
        reveal_strlit(":ghost: Siete horas cumplidas. **{player}** ha cruzado la frontera invisible entre la vigilia y la leyenda, y nadie sabe bien de qué lado quedó.");
        crate::fill::lemma_braced(TIER_7H@[k]@, "{player}"@, 33, "{hours}"@, -1);
    }
    assert(TIER_7H@[k]@.take(8) == ":ghost: "@);
}

#[verifier::spinoff_prover]
proof fn lemma_tier_8h(k: int)
    requires
        0 <= k < TIER_8H@.len(),
    ensures
        sound(TIER_8H@[k]@, ":briefcase: "@),
        names_player(TIER_8H@[k]@),
{
    reveal_strlit("{player}");
    reveal_strlit("{hours}");
    reveal_strlit(":briefcase: ");
    if k == 0 {
        reveal_strlit(":briefcase: ¡Ocho horas, por mis barbas! Sugiere este cronista, con todo respeto, que **{player}** considere un oficio honrado, toque pasto de verdad y recuerde que hasta Dulcinea ha empezado a preguntar por su paradero.");
        crate::fill::lemma_braced(TIER_8H@[k]@, "{player}"@, 88, "{hours}"@, -1);
    }
    if k == 1 {
        reveal_strlit(":briefcase: Ocho horas cumplidas. Ni Don Quijote, en sus delirios más largos, pasó tanto tiempo sin bajar del caballo. Vuestra merced, **{player}**, quizá debería probar un oficio honrado — y ver el sol, que existe.");
        crate::fill::lemma_braced(TIER_8H@[k]@, "{player}"@, 137, "{hours}"@, -1);
    }
    if k == 2 {
        reveal_strlit(":briefcase: A las ocho horas se decreta lo siguiente: **{player}** necesita tocar pasto real, buscarse un oficio honrado, y llamar a Dulcinea antes de que esta pierda la paciencia.");
        crate::fill::lemma_braced(TIER_8H@[k]@, "{player}"@, 56, "{hours}"@, -1);
    }
    if k == 3 {
        reveal_strlit(":briefcase: Ocho horas sin desmontar. Este escribano recomienda, muy seriamente, que **{player}** deje la lanza, tome el aire, y considere que hasta los caballeros andantes cobraban por sus hazañas.");
        crate::fill::lemma_braced(TIER_8H@[k]@, "{player}"@, 87, "{hours}"@, -1);
    }
    if k == 4 {
        reveal_strlit(":briefcase: Ocho horas. Se abre convocatoria pública: **{player}** busca oficio honrado, se ofrece disponibilidad inmediata, motivo del cambio: Dulcinea ya no contesta los mensajes.");
        crate::fill::lemma_braced(TIER_8H@[k]@, "{player}"@, 56, "{hours}"@, -1);
    }
    assert(TIER_8H@[k]@.take(12) == ":briefcase: "@);
}

#[verifier::spinoff_prover]
proof fn lemma_tier_roast(k: int)
    requires
        0 <= k < TIER_ROAST@.len(),
    ensures
        sound(TIER_ROAST@[k]@, ":rotating_light: "@),
        crate::text::occurs_at(TIER_ROAST@[k]@, "{hours}"@, 17),
        crate::fill::bare(TIER_ROAST@[k]@.take(17)),
{
    reveal_strlit("{player}");
    reveal_strlit("{hours}");
    reveal_strlit(":rotating_light: ");
    if k == 0 {
        reveal_strlit(":rotating_light: {hours} horas y contando. **{player}**, a este paso el yelmo de Mambrino le va a salir raíces.");
        crate::fill::lemma_braced(TIER_ROAST@[k]@, "{player}"@, 45, "{hours}"@, 17);
    }
    if k == 1 {
        reveal_strlit(":rotating_light: {hours} horas de porfía. Ya ni los molinos lo consideran caballero: lo consideran parte del paisaje.");
        crate::fill::lemma_braced(TIER_ROAST@[k]@, "{player}"@, -1, "{hours}"@, 17);
    }
    if k == 2 {
        reveal_strlit(":rotating_light: {hours} horas. Dulcinea ha mandado un segundo mensajero preguntando si **{player}** sigue con vida.");
        crate::fill::lemma_braced(TIER_ROAST@[k]@, "{player}"@, 90, "{hours}"@, 17);
    }
    if k == 3 {
        reveal_strlit(":rotating_light: {hours} horas sin bajar del caballo. Sancho ya se comió el tasajo él solo, hastiado de esperar a **{player}**.");
        crate::fill::lemma_braced(TIER_ROAST@[k]@, "{player}"@, 116, "{hours}"@, 17);
    }
    if k == 4 {
        reveal_strlit(":rotating_light: {hours} horas cumplidas. A este ritmo, **{player}** logrará el récord que ningún hidalgo de la Mancha quiso jamás.");
        crate::fill::lemma_braced(TIER_ROAST@[k]@, "{player}"@, 58, "{hours}"@, 17);
    }
    if k == 5 {
        reveal_strlit(":rotating_light: {hours} horas. El propio cronista de esta historia empieza a sospechar que **{player}** ha confundido la ínsula con su morada permanente.");
        crate::fill::lemma_braced(TIER_ROAST@[k]@, "{player}"@, 94, "{hours}"@, 17);
    }
    assert(TIER_ROAST@[k]@.take(17) == ":rotating_light: "@);
}

/// How the lines of an hour begin.
spec fn opening(hours: u32) -> Seq<char> {
    if hours <= 2 {
        ":hourglass_flowing_sand: "@
    } else if hours == 3 {
        ":thinking: "@
    } else if hours == 4 {
        ":horse: "@
    } else if hours == 5 {
        ":wind_chime: "@
    } else if hours == 6 {
        ":stew: "@
    } else if hours == 7 {
        ":ghost: "@
    } else if hours == 8 {
        ":briefcase: "@
    } else {
        ":rotating_light: "@
    }
}

proof fn lemma_line(player: Seq<char>, hours: u32)
    ensures
        ({
            let k = turn(player, hours, tier(hours).len() as int);
            &&& 0 <= k < tier(hours).len()
            &&& sound(tier(hours)[k]@, opening(hours))
            &&& hours <= 8 ==> names_player(tier(hours)[k]@)
        }),
{
    let k = turn(player, hours, tier(hours).len() as int);
    if hours <= 2 {
        lemma_tier_2h(k);
    } else if hours == 3 {
        lemma_tier_3h(k);
    } else if hours == 4 {
        lemma_tier_4h(k);
    } else if hours == 5 {
        lemma_tier_5h(k);
    } else if hours == 6 {
        lemma_tier_6h(k);
    } else if hours == 7 {
        lemma_tier_7h(k);
    } else if hours == 8 {
        lemma_tier_8h(k);
    } else {
        lemma_tier_roast(k);
    }
}

proof fn lemma_numeral_is_bare(n: nat)
    ensures
        crate::fill::bare(crate::text::decimal(n)),
{
    crate::text::lemma_decimal(n);
    assert forall|i: int| 0 <= i < crate::text::decimal(n).len() implies #[trigger] crate::text::decimal(
        n,
    )[i] != '{' by {
        assert(crate::text::ascii_digit(crate::text::decimal(n)[i]));
    }
}

/// For every player whose name holds no brace, and every hour, nothing is
/// left to fill in.
pub proof fn law_no_placeholder_is_left(player: Seq<char>, hours: u32)
    requires
        crate::fill::bare(player),
    ensures
        crate::fill::bare(message(player, hours)),
{
    lemma_line(player, hours);
    lemma_placeholders();
    lemma_numeral_is_bare(hours as nat);
    crate::fill::lemma_fill_leaves_no_brace(
        tier(hours)[turn(player, hours, tier(hours).len() as int)]@,
        "{player}"@,
        player,
        "{hours}"@,
        crate::text::decimal(hours as nat),
    );
}

/// From the second hour to the eighth no two hours share a message, whoever
/// the players are.
pub proof fn law_hours_two_to_eight_differ(
    player: Seq<char>,
    hours: u32,
    other_player: Seq<char>,
    other_hours: u32,
)
    requires
        2 <= hours <= 8,
        2 <= other_hours <= 8,
        hours != other_hours,
    ensures
        message(player, hours) != message(other_player, other_hours),
{
    lemma_opening(player, hours);
    lemma_opening(other_player, other_hours);
}

/// The second and the fourth character of the lines of an hour.
spec fn marks(hours: u32) -> (char, char) {
    if hours <= 2 {
        ('h', 'u')
    } else if hours == 3 {
        ('t', 'i')
    } else if hours == 4 {
        ('h', 'r')
    } else if hours == 5 {
        ('w', 'n')
    } else if hours == 6 {
        ('s', 'e')
    } else if hours == 7 {
        ('g', 'o')
    } else if hours == 8 {
        ('b', 'i')
    } else {
        ('r', 't')
    }
}

proof fn lemma_opening(player: Seq<char>, hours: u32)
    ensures
        message(player, hours)[1] == marks(hours).0,
        message(player, hours)[3] == marks(hours).1,
{
    law_every_hour_has_its_opening(player, hours);
    reveal_strlit(":hourglass_flowing_sand: ");
    reveal_strlit(":thinking: ");
    reveal_strlit(":horse: ");
    reveal_strlit(":wind_chime: ");
    reveal_strlit(":stew: ");
    reveal_strlit(":ghost: ");
    reveal_strlit(":briefcase: ");
    reveal_strlit(":rotating_light: ");
    let said = message(player, hours);
    let front = said.subrange(0, opening(hours).len() as int);
    assert(front == opening(hours));
    assert(said[1] == front[1]);
    assert(said[3] == front[3]);
}

/// What is said of an hour begins in that hour's own way, whoever the player
/// is: the hourglass up to the second hour, then the thinker, the horse, the
/// wind chime, the stew, the ghost and the briefcase up to the eighth, and
/// the alarm from the ninth on.
pub proof fn law_every_hour_has_its_opening(player: Seq<char>, hours: u32)
    ensures
        hours <= 2 ==> crate::text::occurs_at(
            message(player, hours),
            ":hourglass_flowing_sand: "@,
            0,
        ),
        hours == 3 ==> crate::text::occurs_at(message(player, hours), ":thinking: "@, 0),
        hours == 4 ==> crate::text::occurs_at(message(player, hours), ":horse: "@, 0),
        hours == 5 ==> crate::text::occurs_at(message(player, hours), ":wind_chime: "@, 0),
        hours == 6 ==> crate::text::occurs_at(message(player, hours), ":stew: "@, 0),
        hours == 7 ==> crate::text::occurs_at(message(player, hours), ":ghost: "@, 0),
        hours == 8 ==> crate::text::occurs_at(message(player, hours), ":briefcase: "@, 0),
        hours >= 9 ==> crate::text::occurs_at(message(player, hours), ":rotating_light: "@, 0),
{
    lemma_line(player, hours);
    lemma_placeholders();
    let line = tier(hours)[turn(player, hours, tier(hours).len() as int)]@;
    let n = opening(hours).len() as int;
    crate::fill::lemma_fill_keeps_opening(
        line,
        "{player}"@,
        player,
        "{hours}"@,
        crate::text::decimal(hours as nat),
        n,
    );
    assert(message(player, hours).subrange(0, n) == message(player, hours).take(n));
}

/// Up to the eighth hour the message names the player, for every name that
/// holds no brace.
pub proof fn law_messages_name_the_player(player: Seq<char>, hours: u32)
    requires
        crate::fill::bare(player),
        hours <= 8,
    ensures
        crate::text::contains(message(player, hours), player),
{
    lemma_line(player, hours);
    lemma_placeholders();
    let line = tier(hours)[turn(player, hours, tier(hours).len() as int)]@;
    let at = choose|at: int| crate::text::occurs_at(line, "{player}"@, at);
    crate::fill::lemma_fill_keeps_first(
        line,
        "{player}"@,
        player,
        "{hours}"@,
        crate::text::decimal(hours as nat),
        at,
    );
}

/// The lines of an hour take turns by the length of the name plus the hours,
/// counted in 32 bits, and each is filled in with the name first and then with
/// the hours.
pub proof fn law_lines_take_turns(player: Seq<char>, hours: u32)
    requires
        player.len() < 0x1_0000_0000,
    ensures
        ({
            let k = (player.len() + hours) % 0x1_0000_0000;
            let line = if hours <= 2 {
                TIER_2H@[k % 4]
            } else if hours == 3 {
                TIER_3H@[k % 4]
            } else if hours == 4 {
                TIER_4H@[k % 4]
            } else if hours == 5 {
                TIER_5H@[k % 4]
            } else if hours == 6 {
                TIER_6H@[k % 4]
            } else if hours == 7 {
                TIER_7H@[k % 4]
            } else if hours == 8 {
                TIER_8H@[k % 5]
            } else {
                TIER_ROAST@[k % 6]
            };
            message(player, hours) == crate::text::replace_all(
                crate::text::replace_all(line@, "{player}"@, player),
                "{hours}"@,
                crate::text::decimal(hours as nat),
            )
        }),
{
}

/// From the ninth hour on the message tells the hours, whatever the player's
/// name.
pub proof fn law_late_messages_tell_the_hours(player: Seq<char>, hours: u32)
    requires
        hours >= 9,
    ensures
        crate::text::contains(message(player, hours), crate::text::decimal(hours as nat)),
{
    let k = turn(player, hours, tier(hours).len() as int);
    lemma_tier_roast(k);
    lemma_placeholders();
    crate::fill::lemma_fill_keeps_early_second(
        tier(hours)[k]@,
        "{player}"@,
        player,
        "{hours}"@,
        crate::text::decimal(hours as nat),
        17,
    );
}

} // verus!
