//! The herald: finds the advancements, challenges and goals in the server's
//! log and proclaims each of them once.

use vstd::hash_set::StringHashSet;
use vstd::prelude::*;
use crate::patterns::{first_captures, DEED_LINE};
use crate::text::{replace, same, split_on, trimmed};

verus! {

#[derive(Debug, Clone, Copy, PartialEq, Eq, Structural)]
pub enum DeedKind {
    Advancement,
    Challenge,
    Goal,
}

#[derive(Debug, Clone, PartialEq, Eq)]
pub struct Deed {
    pub player: String,
    pub kind: DeedKind,
    pub name: String,
}

/// What a deed is: who, of what kind, and its name.
pub struct DeedView {
    pub player: Seq<char>,
    pub kind: DeedKind,
    pub name: Seq<char>,
}

impl View for Deed {
    type V = DeedView;

    open spec fn view(&self) -> DeedView {
        DeedView { player: self.player@, kind: self.kind, name: self.name@ }
    }
}

/// How a log line tells of a deed of this kind.
pub open spec fn phrase_of(kind: DeedKind) -> Seq<char> {
    match kind {
        DeedKind::Advancement => "made the advancement"@,
        DeedKind::Challenge => "completed the challenge"@,
        DeedKind::Goal => "reached the goal"@,
    }
}

/// The log line `line`, white space at its ends aside, tells of `deed`.
pub open spec fn tells_of(line: Seq<char>, deed: DeedView) -> bool {
    crate::patterns::deed_line(
        crate::text::trim(line),
        deed.player,
        phrase_of(deed.kind),
        deed.name,
    )
}

/// The deed that a log line tells of, if it tells of one.
pub open spec fn deed_of(line: Seq<char>) -> Option<DeedView> {
    if exists|deed: DeedView| tells_of(line, deed) {
        Some(choose|deed: DeedView| tells_of(line, deed))
    } else {
        None
    }
}

/// A line tells of at most one deed.
pub proof fn law_a_line_tells_of_one_deed(line: Seq<char>, a: DeedView, b: DeedView)
    requires
        tells_of(line, a),
        tells_of(line, b),
    ensures
        a == b,
        deed_of(line) == Some(a),
{
    lemma_one_deed(line, a, b);
    let c = choose|deed: DeedView| tells_of(line, deed);
    lemma_one_deed(line, a, c);
}

proof fn lemma_one_deed(line: Seq<char>, a: DeedView, b: DeedView)
    requires
        tells_of(line, a),
        tells_of(line, b),
    ensures
        a == b,
{
    reveal_strlit(" [Server thread/INFO]: ");
    reveal_strlit(" has ");
    reveal_strlit(" [");
    reveal_strlit("]");
    reveal_strlit("made the advancement");
    reveal_strlit("completed the challenge");
    reveal_strlit("reached the goal");
    let tag = " [Server thread/INFO]: "@;
    let rest = crate::text::trim(line).skip(10);
    let p = tag.len() as int;
    assert(rest[p + a.player.len()] == ' ');
    assert(rest[p + b.player.len()] == ' ');
    if a.player.len() < b.player.len() {
        assert(rest[p + a.player.len()] == b.player[a.player.len() as int]);
        assert(false);
    }
    if b.player.len() < a.player.len() {
        assert(rest[p + b.player.len()] == a.player[b.player.len() as int]);
        assert(false);
    }
    let n = a.player.len() as int;
    assert(a.player =~= rest.subrange(p, p + n));
    assert(b.player =~= rest.subrange(p, p + n));
    let q = p + n + " has "@.len();
    assert(rest[q] == phrase_of(a.kind)[0]);
    assert(rest[q] == phrase_of(b.kind)[0]);
    assert(a.kind == b.kind);
    let f = q + phrase_of(a.kind).len() + " ["@.len();
    assert(rest.len() == f + a.name.len() + 1);
    assert(rest.len() == f + b.name.len() + 1);
    assert(a.name =~= rest.subrange(f, f + a.name.len()));
    assert(b.name =~= rest.subrange(f, f + b.name.len()));
}

/// Which log lines tell of a deed, and of which: those of the server thread
/// with a time stamp, the player's name, what the player has done and the
/// deed's name in brackets.
pub proof fn law_log_lines_of_deeds(
    line: Seq<char>,
    stamp: Seq<char>,
    player: Seq<char>,
    name: Seq<char>,
)
    requires
        crate::patterns::time_stamp(stamp),
        crate::patterns::username(player),
        name.len() > 0,
        !name.contains('\n'),
    ensures
        crate::text::trim(line) == stamp + " [Server thread/INFO]: "@ + player
            + " has made the advancement ["@ + name + "]"@ ==> deed_of(line) == Some(
            DeedView { player, kind: DeedKind::Advancement, name },
        ),
        crate::text::trim(line) == stamp + " [Server thread/INFO]: "@ + player
            + " has completed the challenge ["@ + name + "]"@ ==> deed_of(line) == Some(
            DeedView { player, kind: DeedKind::Challenge, name },
        ),
        crate::text::trim(line) == stamp + " [Server thread/INFO]: "@ + player
            + " has reached the goal ["@ + name + "]"@ ==> deed_of(line) == Some(
            DeedView { player, kind: DeedKind::Goal, name },
        ),
{
    reveal_strlit(" has ");
    reveal_strlit(" [");
    reveal_strlit("made the advancement");
    reveal_strlit("completed the challenge");
    reveal_strlit("reached the goal");
    reveal_strlit(" has made the advancement [");
    reveal_strlit(" has completed the challenge [");
    reveal_strlit(" has reached the goal [");
    let text = crate::text::trim(line);
    let head = " [Server thread/INFO]: "@ + player;
    lemma_phrase(DeedKind::Advancement, " has made the advancement ["@);
    lemma_phrase(DeedKind::Challenge, " has completed the challenge ["@);
    lemma_phrase(DeedKind::Goal, " has reached the goal ["@);
    if text == stamp + " [Server thread/INFO]: "@ + player + " has made the advancement ["@ + name
        + "]"@ {
        lemma_told(line, stamp, DeedView { player, kind: DeedKind::Advancement, name });
    }
    if text == stamp + " [Server thread/INFO]: "@ + player + " has completed the challenge ["@
        + name + "]"@ {
        lemma_told(line, stamp, DeedView { player, kind: DeedKind::Challenge, name });
    }
    if text == stamp + " [Server thread/INFO]: "@ + player + " has reached the goal ["@ + name
        + "]"@ {
        lemma_told(line, stamp, DeedView { player, kind: DeedKind::Goal, name });
    }
}

/// The three ways to tell of a deed, with the words around them.
proof fn lemma_phrase(kind: DeedKind, words: Seq<char>)
    requires
        kind == DeedKind::Advancement ==> words == " has made the advancement ["@,
        kind == DeedKind::Challenge ==> words == " has completed the challenge ["@,
        kind == DeedKind::Goal ==> words == " has reached the goal ["@,
    ensures
        " has "@ + phrase_of(kind) + " ["@ == words,
{
    reveal_strlit(" has ");
    reveal_strlit(" [");
    reveal_strlit("made the advancement");
    reveal_strlit("completed the challenge");
    reveal_strlit("reached the goal");
    reveal_strlit(" has made the advancement [");
    reveal_strlit(" has completed the challenge [");
    reveal_strlit(" has reached the goal [");
    assert(" has "@ + phrase_of(kind) + " ["@ =~= words);
}

proof fn lemma_told(line: Seq<char>, stamp: Seq<char>, deed: DeedView)
    requires
        crate::patterns::time_stamp(stamp),
        crate::patterns::username(deed.player),
        deed.name.len() > 0,
        !deed.name.contains('\n'),
        crate::text::trim(line) == stamp + " [Server thread/INFO]: "@ + deed.player + (" has "@
            + phrase_of(deed.kind) + " ["@) + deed.name + "]"@,
    ensures
        deed_of(line) == Some(deed),
{
    let text = crate::text::trim(line);
    assert(text.take(10) == stamp);
    assert(text.skip(10) == " [Server thread/INFO]: "@ + deed.player + " has "@ + phrase_of(
        deed.kind,
    ) + " ["@ + deed.name + "]"@);
    assert(tells_of(line, deed));
    law_a_line_tells_of_one_deed(line, deed, deed);
}

/// No other line does: one that tells of a deed begins with a time stamp, and
/// what follows it is the tag of the server thread and the words for a deed
/// of that kind.
pub proof fn law_nothing_else_tells_of_a_deed(line: Seq<char>)
    ensures
        deed_of(line) matches Some(d) ==> {
            let text = crate::text::trim(line);
            let words = match d.kind {
                DeedKind::Advancement => " has made the advancement ["@,
                DeedKind::Challenge => " has completed the challenge ["@,
                DeedKind::Goal => " has reached the goal ["@,
            };
            &&& text.len() > 10 && crate::patterns::time_stamp(text.take(10))
            &&& text.skip(10) == " [Server thread/INFO]: "@ + d.player + words + d.name + "]"@
            &&& crate::patterns::username(d.player)
            &&& d.name.len() > 0 && !d.name.contains('\n')
        },
{
    if deed_of(line) is Some {
        let d = deed_of(line).unwrap();
        assert(tells_of(line, d));
        let words = match d.kind {
            DeedKind::Advancement => " has made the advancement ["@,
            DeedKind::Challenge => " has completed the challenge ["@,
            DeedKind::Goal => " has reached the goal ["@,
        };
        lemma_phrase(d.kind, words);
        assert(" [Server thread/INFO]: "@ + d.player + " has "@ + phrase_of(d.kind) + " ["@ + d.name
            + "]"@ == " [Server thread/INFO]: "@ + d.player + (" has "@ + phrase_of(d.kind) + " ["@)
            + d.name + "]"@);
    }
}

/// Only players with a proper user name are ever credited with a deed. A chat
/// line, whose author stands in angle brackets, therefore never counts.
pub proof fn law_deeds_belong_to_players(line: Seq<char>)
    ensures
        deed_of(line) matches Some(d) ==> crate::patterns::username(d.player),
        line.len() > 33 && line[33] == '<' && crate::text::trim(line) == line ==> deed_of(line)
            is None,
{
    if deed_of(line) is Some {
        let d = deed_of(line).unwrap();
        assert(tells_of(line, d));
        if line.len() > 33 && line[33] == '<' && crate::text::trim(line) == line {
            reveal_strlit(" [Server thread/INFO]: ");
            assert(line.skip(10)[23] == d.player[0]);
        }
    }
}

/// Reads a log line.
pub fn parse_deed_line(line: &str) -> (r: Option<Deed>)
    ensures
        match r {
            Some(d) => deed_of(line@) == Some(d@) && tells_of(line@, d@),
            None => deed_of(line@) is None && forall|deed: DeedView| !tells_of(line@, deed),
        },
{
    let text = trimmed(line);
    match first_captures(DEED_LINE, text.as_str()) {
        None => None,
        Some(groups) => {
            proof {
                reveal_strlit("made the advancement");
                reveal_strlit("completed the challenge");
                reveal_strlit("reached the goal");
            }
            let kind = if same(groups[2].as_str(), "made the advancement") {
                DeedKind::Advancement
            } else if same(groups[2].as_str(), "completed the challenge") {
                DeedKind::Challenge
            } else {
                DeedKind::Goal
            };
            let deed = Deed { player: groups[1].clone(), kind, name: groups[3].clone() };
            proof {
                assert(tells_of(line@, deed@));
                law_a_line_tells_of_one_deed(line@, deed@, deed@);
            }
            Some(deed)
        },
    }
}

// ---------------------------------------------------------------------------
// What to say
// ---------------------------------------------------------------------------

pub const ADVANCEMENT_POOL: [&'static str; 4] = [
    ":scroll: ¡Asiento en el gran libro de hazañas! **{player}** ha alcanzado el logro de *{name}*, paso firme en su andanza por la ínsula.",
    ":scroll: Cuenta esta crónica que **{player}** ha logrado *{name}*. Pequeña hazaña, sí, mas toda gran gesta se compone de estas piedras.",
    ":scroll: **{player}** suma a su haber el logro de *{name}*. El cronista toma nota y sonríe complacido.",
    ":scroll: Nuevo capítulo en la vida de **{player}**: ha conquistado *{name}*. Adelante, buen hidalgo.",
];

pub const GOAL_POOL: [&'static str; 4] = [
    ":dart: **{player}** ha coronado la meta de *{name}*, como quien al fin alcanza el molino tras larga cabalgata.",
    ":dart: Meta cumplida: **{player}** ha alcanzado *{name}* tras porfiada persecución. Bien haya tal tesón.",
    ":dart: **{player}** planta su bandera sobre *{name}*. Otra cumbre menos que conquistar en esta ínsula.",
    ":dart: Se ha cumplido el objetivo de *{name}* por mano de **{player}**. El horizonte ya no parece tan lejano.",
];

pub const CHALLENGE_POOL: [&'static str; 5] = [
    ":crossed_swords: ¡Por mi fe que ha sido proeza homérica! **{player}** ha vencido el desafío de *{name}*, hazaña que el mismísimo Rocinante celebraría con relincho de gloria.",
    ":crossed_swords: ¡Cantad, musas, la gesta de **{player}**! Ha sometido el desafío de *{name}* como quien desfacía entuertos por doquier. Ni los gigantes de otrora osarían interponerse.",
    ":crossed_swords: Escrito quede en letras de oro: **{player}** ha derrotado el reto de *{name}*. Ni el yelmo de Mambrino brilla tanto como esta hazaña.",
    ":crossed_swords: ¡Alabado sea el brazo de **{player}**! El desafío de *{name}* yace vencido a sus pies, proeza digna de figurar junto a las de Amadís de Gaula.",
    ":crossed_swords: Que se toquen las trompetas: **{player}** ha superado el desafío de *{name}*. Ni la Ínsula Barataria vio jamás gobernador tan bizarro.",
];

/// The FNV-1a hash of a series of bytes.
pub open spec fn fnv(bytes: Seq<u8>) -> u32
    decreases bytes.len(),
{
    if bytes.len() == 0 {
        0x811c_9dc5u32
    } else {
        (((fnv(bytes.drop_last()) ^ (bytes.last() as u32)) * 0x0100_0193)
            % 0x1_0000_0000) as u32
    }
}

/// FNV-1a over the UTF-8 bytes of `s`: a hash that is the same in every
/// process.
pub fn fnv1a(s: &str) -> (h: u32)
    ensures
        h == fnv(vstd::utf8::encode_utf8(s@)),
{
    let bytes = s.as_bytes();
    let mut h: u32 = 0x811c_9dc5;
    let mut i: usize = 0;
    assert(bytes@.take(0) == Seq::<u8>::empty());
    while i < bytes.len()
        invariant
            i <= bytes@.len(),
            h == fnv(bytes@.take(i as int)),
        decreases bytes@.len() - i,
    {
        assert(bytes@.take(i + 1).drop_last() == bytes@.take(i as int));
        let mixed: u64 = (h ^ (bytes[i] as u32)) as u64;
        h = ((mixed * 0x0100_0193) % 0x1_0000_0000) as u32;
        i += 1;
    }
    assert(bytes@.take(i as int) == bytes@);
    h
}

/// What makes the hash: it starts from the offset basis, and each byte is
/// mixed in and the whole multiplied by the prime, modulo 2 to the power 32.
pub proof fn law_hash_steps(bytes: Seq<u8>, b: u8)
    ensures
        fnv(Seq::empty()) == 2_166_136_261,
        fnv(bytes.push(b)) as int == ((fnv(bytes) ^ (b as u32)) as int * 16_777_619)
            % 4_294_967_296,
{
    assert(bytes.push(b).drop_last() == bytes);
}

/// The lines for a deed of this kind: the most epic for challenges, the most
/// modest for advancements.
pub open spec fn pool_of(kind: DeedKind) -> Seq<&'static str> {
    match kind {
        DeedKind::Advancement => ADVANCEMENT_POOL@,
        DeedKind::Goal => GOAL_POOL@,
        DeedKind::Challenge => CHALLENGE_POOL@,
    }
}

/// Which of `n` lines a deed gets: the hash of the player and the deed's
/// name, modulo `n`.
pub open spec fn line_of(deed: DeedView, n: int) -> int {
    fnv(vstd::utf8::encode_utf8(deed.player + seq!['\0'] + deed.name)) as int % n
}

/// The proclamation of a deed.
pub open spec fn narration(deed: DeedView) -> Seq<char> {
    let pool = pool_of(deed.kind);
    crate::fill::filled(
        pool[line_of(deed, pool.len() as int)]@,
        "{player}"@,
        deed.player,
        "{name}"@,
        deed.name,
    )
}

fn pick(pool: &[&'static str], deed: &Deed) -> (r: &'static str)
    requires
        pool@.len() > 0,
    ensures
        r == pool@[line_of(deed@, pool@.len() as int)],
{
    let mut key = deed.player.clone();
    key.push('\0');
    key.append(deed.name.as_str());
    assert(key@ == deed.player@ + seq!['\0'] + deed.name@);
    let h: u64 = fnv1a(key.as_str()) as u64;
    let idx: u64 = h % (pool.len() as u64);
    pool[idx as usize]
}

/// Proclaims a deed. The same player and deed always give the same line.
pub fn narrate(deed: &Deed) -> (r: String)
    ensures
        r@ == narration(deed@),
{
    proof {
        reveal_strlit("{player}");
        reveal_strlit("{name}");
    }
    let line = match deed.kind {
        DeedKind::Advancement => pick(&ADVANCEMENT_POOL, deed),
        DeedKind::Goal => pick(&GOAL_POOL, deed),
        DeedKind::Challenge => pick(&CHALLENGE_POOL, deed),
    };
    let named = replace(line, "{player}", deed.player.as_str());
    replace(named.as_str(), "{name}", deed.name.as_str())
}

// ---------------------------------------------------------------------------
// The herald
// ---------------------------------------------------------------------------

/// The lines that have told of a deed, once the log `lines` are read.
pub open spec fn seen_after(seen: Set<Seq<char>>, lines: Seq<Seq<char>>) -> Set<Seq<char>>
    decreases lines.len(),
{
    if lines.len() == 0 {
        seen
    } else {
        let before = seen_after(seen, lines.drop_last());
        let line = crate::text::trim(lines.last());
        if deed_of(line) is Some {
            before.insert(line)
        } else {
            before
        }
    }
}

/// What is proclaimed when the log `lines` are read: a narration for each
/// line that tells of a deed and was not seen before, in order.
pub open spec fn proclaimed(seen: Set<Seq<char>>, lines: Seq<Seq<char>>) -> Seq<Seq<char>>
    decreases lines.len(),
{
    if lines.len() == 0 {
        Seq::empty()
    } else {
        let earlier = proclaimed(seen, lines.drop_last());
        let line = crate::text::trim(lines.last());
        match deed_of(line) {
            Some(deed) => if seen_after(seen, lines.drop_last()).contains(line) {
                earlier
            } else {
                earlier.push(narration(deed))
            },
            None => earlier,
        }
    }
}

/// Remembers every line it has proclaimed, so that a log fetched twice is not
/// proclaimed twice.
pub struct Herald {
    seen: StringHashSet,
}

impl View for Herald {
    type V = Set<Seq<char>>;

    /// The lines proclaimed so far.
    closed spec fn view(&self) -> Set<Seq<char>> {
        self.seen@
    }
}

impl Default for Herald {
    fn default() -> (h: Herald)
        ensures
            h@ == Set::<Seq<char>>::empty(),
    {
        Herald { seen: StringHashSet::new() }
    }
}

impl Herald {
    pub fn new() -> (h: Herald)
        ensures
            h@ == Set::<Seq<char>>::empty(),
    {
        Herald { seen: StringHashSet::new() }
    }

    /// Reads a piece of the log and returns the proclamations that are due.
    pub fn process(&mut self, log_text: &str) -> (out: Vec<String>)
        ensures
            final(self)@ == seen_after(old(self)@, crate::text::split(log_text@, '\n')),
            crate::text::views(out@) == proclaimed(
                old(self)@,
                crate::text::split(log_text@, '\n'),
            ),
    {
        let lines = split_on(log_text, '\n');
        let ghost all = crate::text::views(lines@);
        let mut out: Vec<String> = Vec::new();
        let mut i: usize = 0;
        assert(all.take(0) == Seq::<Seq<char>>::empty());
        assert(crate::text::views(out@) == Seq::<Seq<char>>::empty());
        while i < lines.len()
            invariant
                i <= lines@.len(),
                all == crate::text::views(lines@),
                self@ == seen_after(old(self)@, all.take(i as int)),
                crate::text::views(out@) == proclaimed(old(self)@, all.take(i as int)),
            decreases lines@.len() - i,
        {
            assert(all.take(i + 1).drop_last() == all.take(i as int));
            assert(all.take(i + 1).last() == lines@[i as int]@);
            let line = trimmed(lines[i].as_str());
            if let Some(deed) = parse_deed_line(line.as_str()) {
                if self.seen.insert(line) {
                    let ghost before = out@;
                    let said = narrate(&deed);
                    out.push(said);
                    assert(crate::text::views(out@) == crate::text::views(before).push(said@));
                }
            }
            i += 1;
        }
        assert(all.take(i as int) == all);
        out
    }
}

/// What one line of the log does: a line that tells of a deed is remembered,
/// and the deed is proclaimed unless the line was remembered before. Any other
/// line changes nothing.
pub proof fn law_one_line_of_the_log(seen: Set<Seq<char>>, line: Seq<char>)
    ensures
        ({
            let text = crate::text::trim(line);
            match deed_of(text) {
                Some(deed) => {
                    &&& seen_after(seen, seq![line]) == seen.insert(text)
                    &&& seen.contains(text) ==> proclaimed(seen, seq![line]).len() == 0
                    &&& !seen.contains(text) ==> proclaimed(seen, seq![line]) == seq![
                        narration(deed),
                    ]
                },
                None => {
                    &&& seen_after(seen, seq![line]) == seen
                    &&& proclaimed(seen, seq![line]).len() == 0
                },
            }
        }),
{
    let lines = seq![line];
    assert(lines.drop_last() == Seq::<Seq<char>>::empty());
    assert(lines.last() == line);
    reveal_with_fuel(seen_after, 2);
    reveal_with_fuel(proclaimed, 2);
    assert(Seq::<Seq<char>>::empty().push(
        narration(deed_of(crate::text::trim(line)).unwrap()),
    ) == seq![narration(deed_of(crate::text::trim(line)).unwrap())]);
}

/// A log may be read in pieces: what is proclaimed and remembered is the same
/// as if it were read at once, piece after piece.
pub proof fn law_a_log_may_be_read_in_pieces(
    seen: Set<Seq<char>>,
    first: Seq<Seq<char>>,
    second: Seq<Seq<char>>,
)
    ensures
        seen_after(seen, first + second) == seen_after(seen_after(seen, first), second),
        proclaimed(seen, first + second) == proclaimed(seen, first) + proclaimed(
            seen_after(seen, first),
            second,
        ),
    decreases second.len(),
{
    if second.len() == 0 {
        assert(first + second == first);
    } else {
        let fewer = second.drop_last();
        law_a_log_may_be_read_in_pieces(seen, first, fewer);
        assert((first + second).drop_last() == first + fewer);
        assert((first + second).last() == second.last());
        let line = crate::text::trim(second.last());
        if deed_of(line) is Some {
            let said = narration(deed_of(line).unwrap());
            let a = proclaimed(seen, first);
            let b = proclaimed(seen_after(seen, first), fewer);
            assert((a + b).push(said) == a + b.push(said));
        }
    }
}

/// A log that only repeats lines already proclaimed is met with silence.
pub proof fn law_repeated_lines_are_silent(seen: Set<Seq<char>>, lines: Seq<Seq<char>>)
    requires
        forall|i: int|
            0 <= i < lines.len() ==> {
                let line = crate::text::trim(#[trigger] lines[i]);
                deed_of(line) is None || seen.contains(line)
            },
    ensures
        proclaimed(seen, lines) == Seq::<Seq<char>>::empty(),
        seen_after(seen, lines) == seen,
    decreases lines.len(),
{
    if lines.len() > 0 {
        let fewer = lines.drop_last();
        assert forall|i: int| 0 <= i < fewer.len() implies {
            let line = crate::text::trim(#[trigger] fewer[i]);
            deed_of(line) is None || seen.contains(line)
        } by {
            assert(fewer[i] == lines[i]);
        }
        law_repeated_lines_are_silent(seen, fewer);
        assert(lines.last() == lines[lines.len() - 1]);
        assert(seen.insert(crate::text::trim(lines.last())) =~= seen || deed_of(
            crate::text::trim(lines.last()),
        ) is None);
    }
}

/// No line is proclaimed twice: once a log was read, none of its lines is
/// proclaimed again, however often and in whatever company it comes back.
pub proof fn law_no_line_is_proclaimed_twice(
    seen: Set<Seq<char>>,
    first: Seq<Seq<char>>,
    between: Seq<Seq<char>>,
    again: Seq<Seq<char>>,
)
    requires
        forall|i: int| 0 <= i < again.len() ==> first.contains(#[trigger] again[i]),
    ensures
        proclaimed(seen_after(seen_after(seen, first), between), again) == Seq::<
            Seq<char>,
        >::empty(),
{
    let s1 = seen_after(seen, first);
    let s2 = seen_after(s1, between);
    lemma_seen_grows(s1, between);
    assert forall|i: int| 0 <= i < again.len() implies {
        let line = crate::text::trim(#[trigger] again[i]);
        deed_of(line) is None || s2.contains(line)
    } by {
        assert(first.contains(again[i]));
        let k = choose|k: int| 0 <= k < first.len() && first[k] == again[i];
        lemma_read_lines_are_seen(seen, first, k);
    }
    law_repeated_lines_are_silent(s2, again);
}

proof fn lemma_seen_grows(seen: Set<Seq<char>>, lines: Seq<Seq<char>>)
    ensures
        forall|line: Seq<char>| seen.contains(line) ==> #[trigger] seen_after(
            seen,
            lines,
        ).contains(line),
    decreases lines.len(),
{
    if lines.len() > 0 {
        let fewer = lines.drop_last();
        lemma_seen_grows(seen, fewer);
        assert forall|line: Seq<char>| seen.contains(line) implies #[trigger] seen_after(
            seen,
            lines,
        ).contains(line) by {
            assert(seen_after(seen, fewer).contains(line));
        }
    }
}

proof fn lemma_read_lines_are_seen(seen: Set<Seq<char>>, lines: Seq<Seq<char>>, k: int)
    requires
        0 <= k < lines.len(),
    ensures
        ({
            let line = crate::text::trim(lines[k]);
            deed_of(line) is None || seen_after(seen, lines).contains(line)
        }),
    decreases lines.len(),
{
    if k < lines.len() - 1 {
        lemma_read_lines_are_seen(seen, lines.drop_last(), k);
    }
}

// ---------------------------------------------------------------------------
// Laws of the lines
// ---------------------------------------------------------------------------

/// The braces of a line belong to its placeholders, both stand in it, and it
/// begins with the given words, which hold no brace.
spec fn sound(line: Seq<char>, opening: Seq<char>) -> bool {
    &&& crate::fill::braced(line, "{player}"@, "{name}"@)
    &&& opening.len() <= line.len()
    &&& line.take(opening.len() as int) == opening
    &&& crate::fill::bare(opening)
    &&& crate::text::contains(line, "{player}"@)
    &&& crate::text::contains(line, "{name}"@)
}

#[verifier::spinoff_prover]
proof fn lemma_advancement_pool(k: int)
    requires
        0 <= k < ADVANCEMENT_POOL@.len(),
    ensures
        sound(ADVANCEMENT_POOL@[k]@, ":scroll: "@),
{
    reveal_strlit("{player}");
    reveal_strlit("{name}");
    reveal_strlit(":scroll: ");
    if k == 0 {
        reveal_strlit(":scroll: ¡Asiento en el gran libro de hazañas! **{player}** ha alcanzado el logro de *{name}*, paso firme en su andanza por la ínsula.");
        crate::fill::lemma_braced(ADVANCEMENT_POOL@[k]@, "{player}"@, 49, "{name}"@, 86);
    }
    if k == 1 {
        reveal_strlit(":scroll: Cuenta esta crónica que **{player}** ha logrado *{name}*. Pequeña hazaña, sí, mas toda gran gesta se compone de estas piedras.");
        crate::fill::lemma_braced(ADVANCEMENT_POOL@[k]@, "{player}"@, 35, "{name}"@, 58);
    }
    if k == 2 {
        reveal_strlit(":scroll: **{player}** suma a su haber el logro de *{name}*. El cronista toma nota y sonríe complacido.");
        crate::fill::lemma_braced(ADVANCEMENT_POOL@[k]@, "{player}"@, 11, "{name}"@, 51);
    }
    if k == 3 {
        reveal_strlit(":scroll: Nuevo capítulo en la vida de **{player}**: ha conquistado *{name}*. Adelante, buen hidalgo.");
        crate::fill::lemma_braced(ADVANCEMENT_POOL@[k]@, "{player}"@, 40, "{name}"@, 68);
    }
    assert(ADVANCEMENT_POOL@[k]@.take(9) == ":scroll: "@);
}

#[verifier::spinoff_prover]
proof fn lemma_goal_pool(k: int)
    requires
        0 <= k < GOAL_POOL@.len(),
    ensures
        sound(GOAL_POOL@[k]@, ":dart: "@),
{
    reveal_strlit("{player}");
    reveal_strlit("{name}");
    reveal_strlit(":dart: ");
    if k == 0 {
        reveal_strlit(":dart: **{player}** ha coronado la meta de *{name}*, como quien al fin alcanza el molino tras larga cabalgata.");
        crate::fill::lemma_braced(GOAL_POOL@[k]@, "{player}"@, 9, "{name}"@, 44);
    }
    if k == 1 {
        reveal_strlit(":dart: Meta cumplida: **{player}** ha alcanzado *{name}* tras porfiada persecución. Bien haya tal tesón.");
        crate::fill::lemma_braced(GOAL_POOL@[k]@, "{player}"@, 24, "{name}"@, 49);
    }
    if k == 2 {
        reveal_strlit(":dart: **{player}** planta su bandera sobre *{name}*. Otra cumbre menos que conquistar en esta ínsula.");
        crate::fill::lemma_braced(GOAL_POOL@[k]@, "{player}"@, 9, "{name}"@, 45);
    }
    if k == 3 {
        reveal_strlit(":dart: Se ha cumplido el objetivo de *{name}* por mano de **{player}**. El horizonte ya no parece tan lejano.");
        crate::fill::lemma_braced(GOAL_POOL@[k]@, "{player}"@, 60, "{name}"@, 38);
    }
    assert(GOAL_POOL@[k]@.take(7) == ":dart: "@);
}

#[verifier::spinoff_prover]
proof fn lemma_challenge_pool(k: int)
    requires
        0 <= k < CHALLENGE_POOL@.len(),
    ensures
        sound(CHALLENGE_POOL@[k]@, ":crossed_swords: "@),
{
    reveal_strlit("{player}");
    reveal_strlit("{name}");
    reveal_strlit(":crossed_swords: ");
    if k == 0 {
        reveal_strlit(":crossed_swords: ¡Por mi fe que ha sido proeza homérica! **{player}** ha vencido el desafío de *{name}*, hazaña que el mismísimo Rocinante celebraría con relincho de gloria.");
        crate::fill::lemma_braced(CHALLENGE_POOL@[k]@, "{player}"@, 59, "{name}"@, 96);
    }
    if k == 1 {
        reveal_strlit(":crossed_swords: ¡Cantad, musas, la gesta de **{player}**! Ha sometido el desafío de *{name}* como quien desfacía entuertos por doquier. Ni los gigantes de otrora osarían interponerse.");
        crate::fill::lemma_braced(CHALLENGE_POOL@[k]@, "{player}"@, 47, "{name}"@, 86);
    }
    if k == 2 {
        reveal_strlit(":crossed_swords: Escrito quede en letras de oro: **{player}** ha derrotado el reto de *{name}*. Ni el yelmo de Mambrino brilla tanto como esta hazaña.");
        crate::fill::lemma_braced(CHALLENGE_POOL@[k]@, "{player}"@, 51, "{name}"@, 87);
    }
    if k == 3 {
        reveal_strlit(":crossed_swords: ¡Alabado sea el brazo de **{player}**! El desafío de *{name}* yace vencido a sus pies, proeza digna de figurar junto a las de Amadís de Gaula.");
        crate::fill::lemma_braced(CHALLENGE_POOL@[k]@, "{player}"@, 44, "{name}"@, 71);
    }
    if k == 4 {
        reveal_strlit(":crossed_swords: Que se toquen las trompetas: **{player}** ha superado el desafío de *{name}*. Ni la Ínsula Barataria vio jamás gobernador tan bizarro.");
        crate::fill::lemma_braced(CHALLENGE_POOL@[k]@, "{player}"@, 48, "{name}"@, 86);
    }
    assert(CHALLENGE_POOL@[k]@.take(17) == ":crossed_swords: "@);
}

#[verifier::spinoff_prover]
proof fn lemma_placeholders()
    ensures
        crate::fill::told_apart("{player}"@, "{name}"@),
{
    reveal_strlit("{player}");
    reveal_strlit("{name}");
}

/// How the lines for a deed of this kind begin.
spec fn opening(kind: DeedKind) -> Seq<char> {
    match kind {
        DeedKind::Advancement => ":scroll: "@,
        DeedKind::Goal => ":dart: "@,
        DeedKind::Challenge => ":crossed_swords: "@,
    }
}

#[verifier::spinoff_prover]
proof fn lemma_line(kind: DeedKind, k: int)
    requires
        0 <= k < pool_of(kind).len(),
    ensures
        sound(pool_of(kind)[k]@, opening(kind)),
{
    match kind {
        DeedKind::Advancement => lemma_advancement_pool(k),
        DeedKind::Goal => lemma_goal_pool(k),
        DeedKind::Challenge => lemma_challenge_pool(k),
    }
}

/// A sound line names the player and the deed once filled in.
#[verifier::spinoff_prover]
proof fn lemma_narration(
    line: Seq<char>,
    opening: Seq<char>,
    player: Seq<char>,
    name: Seq<char>,
)
    requires
        sound(line, opening),
        crate::fill::bare(player),
    ensures
        ({
            let said = crate::fill::filled(line, "{player}"@, player, "{name}"@, name);
            &&& crate::text::contains(said, player)
            &&& crate::text::contains(said, name)
            &&& crate::fill::bare(name) ==> crate::fill::bare(said)
        }),
{
    lemma_placeholders();
    let (p, q) = ("{player}"@, "{name}"@);
    let i = choose|i: int| crate::text::occurs_at(line, p, i);
    let j = choose|j: int| crate::text::occurs_at(line, q, j);
    crate::fill::lemma_fill_keeps_first(line, p, player, q, name, i);
    crate::fill::lemma_fill_keeps_second(line, p, player, q, name, j);
    if crate::fill::bare(name) {
        crate::fill::lemma_fill_leaves_no_brace(line, p, player, q, name);
    }
}

/// Every proclamation names the player and the deed, if no brace stands in
/// the player's name, and nothing is left to fill in if none stands in the
/// deed's name either.
pub proof fn law_narrations_name_player_and_deed(deed: DeedView)
    requires
        crate::fill::bare(deed.player),
    ensures
        crate::text::contains(narration(deed), deed.player),
        crate::text::contains(narration(deed), deed.name),
        crate::fill::bare(deed.name) ==> crate::fill::bare(narration(deed)),
{
    let pool = pool_of(deed.kind);
    let k = line_of(deed, pool.len() as int);
    lemma_line(deed.kind, k);
    lemma_narration(pool[k]@, opening(deed.kind), deed.player, deed.name);
}

/// A proclamation begins by the kind of the deed, whatever the player and the
/// deed's name: with the scroll for an advancement, the dart for a goal and
/// the crossed swords for a challenge.
pub proof fn law_every_kind_has_its_opening(deed: DeedView)
    ensures
        deed.kind == DeedKind::Advancement <==> crate::text::occurs_at(
            narration(deed),
            ":scroll: "@,
            0,
        ),
        deed.kind == DeedKind::Goal <==> crate::text::occurs_at(narration(deed), ":dart: "@, 0),
        deed.kind == DeedKind::Challenge <==> crate::text::occurs_at(
            narration(deed),
            ":crossed_swords: "@,
            0,
        ),
{
    let pool = pool_of(deed.kind);
    let k = line_of(deed, pool.len() as int);
    lemma_line(deed.kind, k);
    lemma_placeholders();
    let n = opening(deed.kind).len() as int;
    let said = narration(deed);
    crate::fill::lemma_fill_keeps_opening(
        pool[k]@,
        "{player}"@,
        deed.player,
        "{name}"@,
        deed.name,
        n,
    );
    assert(said.subrange(0, n) == said.take(n));
    reveal_strlit(":scroll: ");
    reveal_strlit(":dart: ");
    reveal_strlit(":crossed_swords: ");
    assert(said[1] == opening(deed.kind)[1]);
    if crate::text::occurs_at(said, ":scroll: "@, 0) {
        assert(said.subrange(0, 9)[1] == 's');
    }
    if crate::text::occurs_at(said, ":dart: "@, 0) {
        assert(said.subrange(0, 7)[1] == 'd');
    }
    if crate::text::occurs_at(said, ":crossed_swords: "@, 0) {
        assert(said.subrange(0, 17)[1] == 'c');
    }
}

/// The lines of a kind take turns by the hash of the player's and the deed's
/// name with a zero character between them, and each is filled in with the
/// player's name first and then with the deed's.
pub proof fn law_lines_go_by_the_hash(deed: DeedView)
    ensures
        ({
            let h = fnv(vstd::utf8::encode_utf8(deed.player + seq!['\0'] + deed.name)) as int;
            let line = match deed.kind {
                DeedKind::Advancement => ADVANCEMENT_POOL@[h % 4],
                DeedKind::Goal => GOAL_POOL@[h % 4],
                DeedKind::Challenge => CHALLENGE_POOL@[h % 5],
            };
            narration(deed) == crate::text::replace_all(
                crate::text::replace_all(line@, "{player}"@, deed.player),
                "{name}"@,
                deed.name,
            )
        }),
{
}

} // verus!
