//! The deploy changelog: a new build of the bot is proclaimed once, with what
//! changed since the build that was proclaimed before. Restarts of the same
//! build stay silent.

use vstd::prelude::*;
use crate::text::{
    chars_of, join, piece, same, split_on, split_once, trimmed, without_suffix,
};

verus! {

/// Between two records of a build log.
pub const UNIT_SEPARATOR: char = '\u{1f}';

/// Between the sha and the subject of a record.
pub const RECORD_SEPARATOR: char = '\u{1e}';

/// The most subjects that a proclamation lists.
pub const MAX_SUBJECTS: usize = 8;

// ---------------------------------------------------------------------------
// Builds
// ---------------------------------------------------------------------------

/// The shas of a build's latest commits, newest first.
#[derive(Debug, Clone, PartialEq, Eq)]
pub struct History {
    shas: Vec<String>,
}

impl View for History {
    type V = Seq<Seq<char>>;

    closed spec fn view(&self) -> Seq<Seq<char>> {
        crate::text::views(self.shas@)
    }
}

/// One build: its own sha and the subjects of its latest commits, newest
/// first. `history` holds the commit of each subject.
#[derive(Debug, Clone, PartialEq, Eq)]
pub struct Build {
    pub sha: String,
    pub subjects: Vec<String>,
    pub history: History,
}

#[verifier::ext_equal]
pub struct BuildView {
    pub sha: Seq<char>,
    pub subjects: Seq<Seq<char>>,
    pub shas: Seq<Seq<char>>,
}

impl View for Build {
    type V = BuildView;

    open spec fn view(&self) -> BuildView {
        BuildView {
            sha: self.sha@,
            subjects: crate::text::views(self.subjects@),
            shas: self.history@,
        }
    }
}

impl BuildView {
    /// Every subject has its commit.
    pub open spec fn wf(self) -> bool {
        self.subjects.len() == self.shas.len()
    }
}

/// The sha and the subject in a record: what stands before and after its
/// separator. A record without one is all sha.
pub open spec fn record_of(r: Seq<char>) -> (Seq<char>, Seq<char>) {
    let i = crate::text::index_of(r, RECORD_SEPARATOR);
    if i < r.len() {
        (r.take(i), r.skip(i + 1))
    } else {
        (r, Seq::empty())
    }
}

/// The records among the pieces of a log; empty pieces are none.
pub open spec fn records(pieces: Seq<Seq<char>>) -> Seq<(Seq<char>, Seq<char>)>
    decreases pieces.len(),
{
    if pieces.len() == 0 {
        Seq::empty()
    } else if pieces.last().len() == 0 {
        records(pieces.drop_last())
    } else {
        records(pieces.drop_last()).push(record_of(pieces.last()))
    }
}

/// The build with the given sha and log.
pub open spec fn build_of(sha: Seq<char>, log: Seq<char>) -> BuildView {
    let rs = records(crate::text::split(log, UNIT_SEPARATOR));
    BuildView {
        sha,
        subjects: rs.map_values(|r: (Seq<char>, Seq<char>)| r.1),
        shas: rs.map_values(|r: (Seq<char>, Seq<char>)| r.0),
    }
}

/// Reads the identity of a build from its sha and its log: records joined by
/// the unit separator, each a sha, the record separator and a subject.
pub fn parse_build(sha_env: &str, log_env: &str) -> (b: Build)
    ensures
        b@ == build_of(sha_env@, log_env@),
        b.sha@ == sha_env@,
        crate::text::views(b.subjects@) == build_of(sha_env@, log_env@).subjects,
        b@.wf(),
{
    let pieces = split_on(log_env, UNIT_SEPARATOR);
    let ghost all = crate::text::views(pieces@);
    let mut shas: Vec<String> = Vec::new();
    let mut subjects: Vec<String> = Vec::new();
    assert(all.take(0) == Seq::<Seq<char>>::empty());
    for k in 0..pieces.len()
        invariant
            all == crate::text::views(pieces@),
            crate::text::views(shas@) == records(all.take(k as int)).map_values(
                |r: (Seq<char>, Seq<char>)| r.0,
            ),
            crate::text::views(subjects@) == records(all.take(k as int)).map_values(
                |r: (Seq<char>, Seq<char>)| r.1,
            ),
    {
        let ghost done = all.take(k as int);
        let ghost next = all.take(k + 1);
        assert(next.drop_last() == done);
        assert(next.last() == pieces@[k as int]@);
        if !pieces[k].as_str().is_empty() {
            let (sha, subject) = match split_once(pieces[k].as_str(), RECORD_SEPARATOR) {
                Some(parts) => parts,
                None => (pieces[k].clone(), String::new()),
            };
            proof {
                crate::text::lemma_index_of(pieces@[k as int]@, RECORD_SEPARATOR);
                assert((sha@, subject@) == record_of(next.last()));
            }
            let ghost (a, b) = (shas@, subjects@);
            shas.push(sha);
            subjects.push(subject);
            assert(crate::text::views(shas@) == crate::text::views(a).push(sha@));
            assert(crate::text::views(subjects@) == crate::text::views(b).push(subject@));
            assert(records(next) == records(done).push(record_of(next.last())));
        }
        assert(crate::text::views(shas@) == records(next).map_values(
            |r: (Seq<char>, Seq<char>)| r.0,
        ));
        assert(crate::text::views(subjects@) == records(next).map_values(
            |r: (Seq<char>, Seq<char>)| r.1,
        ));
    }
    assert(all.take(all.len() as int) == all);
    Build { sha: sha_env.to_owned(), subjects, history: History { shas } }
}

// ---------------------------------------------------------------------------
// Where a build's identity comes from
// ---------------------------------------------------------------------------

/// What git said, white space at the ends left out; none if it said nothing.
pub open spec fn said(output: Option<Seq<char>>) -> Option<Seq<char>> {
    match output {
        Some(s) => if crate::text::trim(s).len() > 0 {
            Some(crate::text::trim(s))
        } else {
            None
        },
        None => None,
    }
}

/// A build argument, or the fallback if it is not set or empty.
pub open spec fn argument(arg: Option<Seq<char>>, fallback: Seq<char>) -> Seq<char> {
    match arg {
        Some(s) => if s.len() > 0 {
            s
        } else {
            fallback
        },
        None => fallback,
    }
}

/// A line without the carriage return at its end.
pub open spec fn without_return(line: Seq<char>) -> Seq<char> {
    match crate::text::strip_suffix(line, "\r"@) {
        Some(rest) => rest,
        None => line,
    }
}

/// The sha of this build: what git said, else the build argument, else a word
/// for not knowing.
pub fn build_sha(git: Option<&str>, arg: Option<&str>) -> (r: String)
    ensures
        r@ == (match said(crate::text::opt(git)) {
            Some(sha) => sha,
            None => argument(crate::text::opt(arg), "desconocido"@),
        }),
{
    if let Some(output) = git {
        let sha = trimmed(output);
        if !sha.as_str().is_empty() {
            return sha;
        }
    }
    argument_or(arg, "desconocido")
}

/// The log of this build: the lines that git said with the unit separator
/// between them, else the build argument, else nothing.
pub fn build_log(git: Option<&str>, arg: Option<&str>) -> (r: String)
    ensures
        r@ == (match said(crate::text::opt(git)) {
            Some(log) => crate::text::joined(
                crate::text::split(log, '\n').map_values(|l: Seq<char>| without_return(l)),
                "\u{1f}"@,
            ),
            None => argument(crate::text::opt(arg), ""@),
        }),
{
    if let Some(output) = git {
        let log = trimmed(output);
        if !log.as_str().is_empty() {
            let lines = split_on(log.as_str(), '\n');
            let ghost all = crate::text::views(lines@);
            let ghost f = |l: Seq<char>| without_return(l);
            let mut records: Vec<String> = Vec::new();
            for k in 0..lines.len()
                invariant
                    all == crate::text::views(lines@),
                    f == (|l: Seq<char>| without_return(l)),
                    crate::text::views(records@) == all.take(k as int).map_values(f),
            {
                let record = match without_suffix(lines[k].as_str(), "\r") {
                    Some(rest) => rest,
                    None => lines[k].clone(),
                };
                let ghost before = records@;
                records.push(record);
                assert(crate::text::views(records@) == crate::text::views(before).push(record@));
                assert(all.take(k + 1).map_values(f) == all.take(k as int).map_values(f).push(
                    f(all[k as int]),
                ));
            }
            assert(all.take(all.len() as int) == all);
            return join(&records, "\u{1f}");
        }
    }
    argument_or(arg, "")
}

fn argument_or(arg: Option<&str>, fallback: &str) -> (r: String)
    ensures
        r@ == argument(crate::text::opt(arg), fallback@),
{
    match arg {
        Some(s) => if s.is_empty() {
            fallback.to_owned()
        } else {
            s.to_owned()
        },
        None => fallback.to_owned(),
    }
}

// ---------------------------------------------------------------------------
// Proclamations
// ---------------------------------------------------------------------------

/// Whether a build is to be proclaimed, given the one proclaimed last.
pub open spec fn announces(current: Seq<char>, last: Option<Seq<char>>) -> bool {
    last != Some(current)
}

pub fn should_announce(current_sha: &str, last_announced: Option<&str>) -> (r: bool)
    ensures
        r == announces(current_sha@, crate::text::opt(last_announced)),
{
    match last_announced {
        None => true,
        Some(prev) => !same(prev, current_sha),
    }
}

/// The first seven characters of a sha.
pub open spec fn short(sha: Seq<char>) -> Seq<char> {
    if sha.len() > 7 {
        sha.take(7)
    } else {
        sha
    }
}

pub fn short_sha(sha: &str) -> (r: String)
    ensures
        r@ == short(sha@),
{
    let cs = chars_of(sha);
    if cs.len() > 7 {
        assert(cs@.subrange(0, 7) == sha@.take(7));
        piece(&cs, 0, 7)
    } else {
        sha.to_owned()
    }
}

/// How many commits of a build are newer than the build proclaimed last: all
/// of them if it is not among the build's own.
pub open spec fn newer(b: BuildView, last: Option<Seq<char>>) -> int {
    let found = match last {
        Some(prev) => b.shas.index_of_first(prev),
        None => None,
    };
    match found {
        Some(i) => i,
        None => b.subjects.len() as int,
    }
}

/// The subjects that a proclamation lists.
pub open spec fn listed(b: BuildView, last: Option<Seq<char>>) -> Seq<Seq<char>> {
    let n = newer(b, last);
    b.subjects.take(
        if n > MAX_SUBJECTS {
            MAX_SUBJECTS as int
        } else {
            n
        },
    )
}

/// The line of a proclamation that lists a subject.
pub open spec fn bullet_line(subject: Seq<char>) -> Seq<char> {
    let s = crate::text::trim(subject);
    "- "@ + (if s.len() == 0 {
        "(sin asunto)"@
    } else {
        s
    })
}

pub open spec fn bullet(subject: Seq<char>) -> Seq<char> {
    bullet_line(subject) + seq!['\n']
}

pub open spec fn bullets(subjects: Seq<Seq<char>>) -> Seq<char>
    decreases subjects.len(),
{
    if subjects.len() == 0 {
        Seq::empty()
    } else {
        bullets(subjects.drop_last()) + bullet(subjects.last())
    }
}

pub const OPENING: &'static str = ":scroll: ¡Oíd, oíd, buenas gentes de la ínsula! Don Quijote desmonta de Rocinante para pregonar la nueva singladura del código, recién forjada en la fragua de los desarrolladores desde la última crónica:\n";

pub const NOTHING_NEW: &'static str = "Ningún hecho memorable se ha hallado en los pergaminos, mas el código nunca cesa de mudar.\n";

pub const MORE: &'static str = "...y algunas otras enmiendas menores.\n";

pub const SEAL: &'static str = "\n*Que quede sellado en el pergamino:* build `";

/// The proclamation of a build after the one proclaimed last.
pub open spec fn proclamation(b: BuildView, last: Option<Seq<char>>) -> Seq<char> {
    let subjects = listed(b, last);
    OPENING@ + (if subjects.len() == 0 {
        NOTHING_NEW@
    } else if newer(b, last) > MAX_SUBJECTS {
        bullets(subjects) + MORE@
    } else {
        bullets(subjects)
    }) + SEAL@ + short(b.sha) + seq!['`']
}

/// The position of the first `sha` in the list, or its length.
fn position(shas: &Vec<String>, sha: &str) -> (r: usize)
    ensures
        r <= shas@.len(),
        r < shas@.len() ==> shas@[r as int]@ == sha@,
        forall|i: int| 0 <= i < r ==> (#[trigger] shas@[i])@ != sha@,
{
    let mut i: usize = 0;
    while i < shas.len()
        invariant
            i <= shas@.len(),
            forall|j: int| 0 <= j < i ==> (#[trigger] shas@[j])@ != sha@,
        decreases shas@.len() - i,
    {
        if same(shas[i].as_str(), sha) {
            return i;
        }
        i += 1;
    }
    i
}

/// The proclamation of `build`: the subjects newer than the build proclaimed
/// last, or the most recent ones if that is not among its commits, and at
/// most [`MAX_SUBJECTS`] of them.
pub fn render(build: &Build, last_announced: Option<&str>) -> (r: String)
    requires
        build@.wf(),
    ensures
        r@ == proclamation(build@, crate::text::opt(last_announced)),
{
    let ghost last = crate::text::opt(last_announced);
    let available: usize = match last_announced {
        Some(prev) => {
            let i = position(&build.history.shas, prev);
            proof {
                let shas = build@.shas;
                shas.index_of_first_ensures(prev@);
                if i < shas.len() {
                    assert(shas[i as int] == prev@);
                }
                assert forall|j: int| 0 <= j < i implies shas[j] != prev@ by {
                    assert(build.history.shas@[j]@ != prev@);
                }
            }
            i
        },
        None => build.subjects.len(),
    };
    assert(available == newer(build@, last));
    let cap: usize = if available > MAX_SUBJECTS {
        MAX_SUBJECTS
    } else {
        available
    };
    let ghost subjects = listed(build@, last);
    assert(subjects == build@.subjects.take(cap as int));
    let mut out = String::from_str(OPENING);
    if cap == 0 {
        out.append(NOTHING_NEW);
    } else {
        assert(subjects.take(0) == Seq::<Seq<char>>::empty());
        assert(out@ == OPENING@ + bullets(subjects.take(0)));
        for k in 0..cap
            invariant
                subjects == build@.subjects.take(cap as int),
                cap <= build.subjects@.len(),
                out@ == OPENING@ + bullets(subjects.take(k as int)),
        {
            let subject = trimmed(build.subjects[k].as_str());
            let ghost before = out@;
            out.append("- ");
            if subject.as_str().is_empty() {
                out.append("(sin asunto)");
            } else {
                out.append(subject.as_str());
            }
            out.push('\n');
            proof {
                let next = subjects.take(k + 1);
                assert(next.drop_last() == subjects.take(k as int));
                assert(next.last() == build.subjects@[k as int]@);
                assert(out@ == before + bullet(next.last()));
                assert(OPENING@ + (bullets(subjects.take(k as int)) + bullet(next.last())) == out@);
            }
        }
        assert(subjects.take(cap as int) == subjects);
        if available > MAX_SUBJECTS {
            out.append(MORE);
            assert(out@ == OPENING@ + (bullets(subjects) + MORE@));
        }
    }
    out.append(SEAL);
    out.append(short_sha(build.sha.as_str()).as_str());
    out.push('`');
    out
}

/// What to proclaim when the bot starts: nothing if this build was proclaimed
/// already.
pub fn announcement(sha_env: &str, log_env: &str, last_announced: Option<&str>) -> (r: Option<
    String,
>)
    ensures
        crate::text::opt_string(r) == (if announces(sha_env@, crate::text::opt(last_announced)) {
            Some(
                proclamation(build_of(sha_env@, log_env@), crate::text::opt(last_announced)),
            )
        } else {
            None
        }),
{
    if should_announce(sha_env, last_announced) {
        let build = parse_build(sha_env, log_env);
        Some(render(&build, last_announced))
    } else {
        None
    }
}

/// The sha in the file that keeps the build proclaimed last.
pub fn recorded_sha(contents: &str) -> (r: String)
    ensures
        r@ == crate::text::trim(contents@),
{
    trimmed(contents)
}

// ---------------------------------------------------------------------------
// Laws
// ---------------------------------------------------------------------------

/// The log that lists the given commits.
pub open spec fn log_of(commits: Seq<(Seq<char>, Seq<char>)>) -> Seq<char>
    decreases commits.len(),
{
    if commits.len() == 0 {
        Seq::empty()
    } else {
        let (sha, subject) = commits.last();
        let record = sha + seq![RECORD_SEPARATOR] + subject;
        if commits.len() == 1 {
            record
        } else {
            log_of(commits.drop_last()) + seq![UNIT_SEPARATOR] + record
        }
    }
}

/// No sha holds a separator and no subject the one between records.
pub open spec fn loggable(commits: Seq<(Seq<char>, Seq<char>)>) -> bool {
    forall|i: int|
        0 <= i < commits.len() ==> {
            let (sha, subject) = #[trigger] commits[i];
            !sha.contains(UNIT_SEPARATOR) && !sha.contains(RECORD_SEPARATOR) && !subject.contains(
                UNIT_SEPARATOR,
            )
        }
}

/// Reading a log gives back the commits that it lists, in their order.
pub proof fn law_log_round_trip(sha: Seq<char>, commits: Seq<(Seq<char>, Seq<char>)>)
    requires
        loggable(commits),
    ensures
        build_of(sha, log_of(commits)) == (BuildView {
            sha,
            subjects: commits.map_values(|r: (Seq<char>, Seq<char>)| r.1),
            shas: commits.map_values(|r: (Seq<char>, Seq<char>)| r.0),
        }),
{
    lemma_records_of_log(commits);
    assert(build_of(sha, log_of(commits)).subjects == commits.map_values(
        |r: (Seq<char>, Seq<char>)| r.1,
    ));
    assert(build_of(sha, log_of(commits)).shas == commits.map_values(
        |r: (Seq<char>, Seq<char>)| r.0,
    ));
}

proof fn lemma_records_of_log(commits: Seq<(Seq<char>, Seq<char>)>)
    requires
        loggable(commits),
    ensures
        records(crate::text::split(log_of(commits), UNIT_SEPARATOR)) == commits,
    decreases commits.len(),
{
    if commits.len() == 0 {
        let log = log_of(commits);
        crate::text::lemma_index_of(log, UNIT_SEPARATOR);
        assert(crate::text::split(log, UNIT_SEPARATOR) == seq![log]);
        assert(seq![log].drop_last() == Seq::<Seq<char>>::empty());
        assert(records(seq![log]) == records(Seq::<Seq<char>>::empty()));
    } else {
        let (sha, subject) = commits.last();
        assert(commits.last() == commits[commits.len() - 1]);
        let record = sha + seq![RECORD_SEPARATOR] + subject;
        assert(!record.contains(UNIT_SEPARATOR)) by {
            if record.contains(UNIT_SEPARATOR) {
                let i = choose|i: int| 0 <= i < record.len() && record[i] == UNIT_SEPARATOR;
                if i < sha.len() {
                    assert(sha[i] == UNIT_SEPARATOR);
                } else if i > sha.len() {
                    assert(subject[i - sha.len() - 1] == UNIT_SEPARATOR);
                }
            }
        }
        assert forall|j: int| 0 <= j < sha.len() implies record[j] != RECORD_SEPARATOR by {
            assert(sha[j] == record[j]);
        }
        crate::text::lemma_index_of_unique(record, RECORD_SEPARATOR, sha.len() as int);
        assert(record.take(sha.len() as int) == sha);
        assert(record.skip(sha.len() as int + 1) == subject);
        assert(record_of(record) == commits.last());
        let before = commits.drop_last();
        assert(before.push(commits.last()) == commits);
        if commits.len() == 1 {
            crate::text::lemma_split_append(Seq::empty(), UNIT_SEPARATOR, record);
            assert(seq![record].drop_last() == Seq::<Seq<char>>::empty());
            assert(records(seq![record].drop_last()) == before);
        } else {
            lemma_records_of_log(before);
            let pieces = crate::text::split(log_of(before), UNIT_SEPARATOR);
            crate::text::lemma_split_append(log_of(before), UNIT_SEPARATOR, record);
            assert(pieces.push(record).drop_last() == pieces);
        }
    }
}

/// Once a build has been proclaimed and its sha recorded, with or without a
/// line break behind it, it stays silent.
pub proof fn law_restarts_are_silent(sha: Seq<char>)
    requires
        crate::text::trim(sha) == sha,
    ensures
        !announces(sha, Some(crate::text::trim(sha))),
        !announces(sha, Some(crate::text::trim(sha.push('\n')))),
        announces(sha, None),
{
    let line = sha.push('\n');
    if sha.len() == 0 {
        assert(crate::text::trim_start(line) == crate::text::trim_start(line.skip(1)));
        assert(line.skip(1) == sha);
    } else {
        crate::text::lemma_trim_start(sha);
        crate::text::lemma_trim_end(crate::text::trim_start(sha));
        assert(crate::text::trim_start(sha) == sha);
        assert(!crate::text::white(sha[0]));
        assert(line[0] == sha[0]);
        assert(crate::text::trim_start(line) == line);
        assert(line.drop_last() == sha);
        assert(crate::text::trim_end(line) == crate::text::trim_end(sha));
    }
}

/// Every build but the one proclaimed last is proclaimed.
pub proof fn law_every_new_build_is_proclaimed(current: Seq<char>, last: Option<Seq<char>>)
    ensures
        last is None ==> announces(current, last),
        last matches Some(prev) ==> (announces(current, last) <==> prev != current),
{
}

/// A short sha is the first seven characters, or all of them if they are fewer.
pub proof fn law_short_shas(sha: Seq<char>)
    ensures
        crate::text::occurs_at(sha, short(sha), 0),
        sha.len() >= 7 ==> short(sha).len() == 7,
        sha.len() < 7 ==> short(sha) == sha,
{
    assert(sha.subrange(0, short(sha).len() as int) == short(sha));
}

/// How many commits are new: those before the build proclaimed last, or all if
/// it is not among them.
pub proof fn law_what_is_new(b: BuildView, last: Option<Seq<char>>, n: int)
    requires
        b.wf(),
    ensures
        newer(b, last) == n <==> {
            &&& 0 <= n <= b.shas.len()
            &&& forall|i: int| 0 <= i < n ==> last != Some(#[trigger] b.shas[i])
            &&& n < b.shas.len() ==> last == Some(b.shas[n])
        },
{
    if let Some(prev) = last {
        b.shas.index_of_first_ensures(prev);
        if 0 <= n < b.shas.len() && b.shas[n] == prev {
            assert(b.shas.contains(prev));
        }
        let m = newer(b, last);
        if 0 <= m < b.shas.len() && m != n {
            assert(last == Some(b.shas[m]));
        }
    } else if 0 <= n < b.shas.len() {
        assert(last != Some(b.shas[n]));
    }
}

/// What a proclamation consists of: the call, the new subjects, at most eight,
/// or that nothing is known of; that there is more, if there is; and the seal
/// with the short sha.
pub proof fn law_the_frame_of_a_proclamation(b: BuildView, last: Option<Seq<char>>)
    requires
        b.wf(),
    ensures
        ({
            let n = newer(b, last);
            let seal = "\n*Que quede sellado en el pergamino:* build `"@ + short(b.sha) + seq!['`'];
            let said = proclamation(b, last);
            &&& n == 0 ==> said == OPENING@ + ("Ningún hecho memorable se ha hallado en los pergaminos, mas el código nunca cesa de mudar.\n"@
                + seal)
            &&& 0 < n <= 8 ==> said == OPENING@ + (bullets(b.subjects.take(n)) + seal)
            &&& n > 8 ==> said == OPENING@ + (bullets(b.subjects.take(8))
                + "...y algunas otras enmiendas menores.\n"@ + seal)
        }),
{
    lemma_newer(b, last);
    let n = newer(b, last);
    let seal = SEAL@ + short(b.sha) + seq!['`'];
    let said = proclamation(b, last);
    if n == 0 {
        assert(said == OPENING@ + (NOTHING_NEW@ + seal));
    } else if n <= 8 {
        assert(said == OPENING@ + (bullets(b.subjects.take(n)) + seal));
    } else {
        assert(said == OPENING@ + (bullets(b.subjects.take(8)) + MORE@ + seal));
    }
}

/// The lines of subjects: a dash, the subject without white space at its ends,
/// or a word for having none, and a line break; one behind the other.
pub proof fn law_lines_of_subjects(subjects: Seq<Seq<char>>, subject: Seq<char>)
    ensures
        bullets(Seq::empty()).len() == 0,
        crate::text::trim(subject).len() > 0 ==> bullets(subjects.push(subject)) == bullets(
            subjects,
        ) + ("- "@ + crate::text::trim(subject) + seq!['\n']),
        crate::text::trim(subject).len() == 0 ==> bullets(subjects.push(subject)) == bullets(
            subjects,
        ) + ("- "@ + "(sin asunto)"@ + seq!['\n']),
{
    assert(subjects.push(subject).drop_last() == subjects);
}

/// How a log is read, piece by piece: an empty piece is passed over, and any
/// other is a commit. Its sha ends at the first separator; without one there
/// is no subject.
pub proof fn law_pieces_of_a_log(
    pieces: Seq<Seq<char>>,
    sha: Seq<char>,
    subject: Seq<char>,
)
    requires
        !sha.contains('\u{1e}'),
    ensures
        records(Seq::empty()).len() == 0,
        records(pieces.push(Seq::empty())) == records(pieces),
        records(pieces.push(sha + seq!['\u{1e}'] + subject)) == records(pieces).push(
            (sha, subject),
        ),
        sha.len() > 0 ==> records(pieces.push(sha)) == records(pieces).push((sha, Seq::empty())),
{
    let record = sha + seq!['\u{1e}'] + subject;
    assert forall|j: int| 0 <= j < sha.len() implies record[j] != '\u{1e}' by {
        assert(sha[j] == record[j]);
    }
    crate::text::lemma_index_of_unique(record, '\u{1e}', sha.len() as int);
    crate::text::lemma_index_of_unique(sha, '\u{1e}', sha.len() as int);
    assert(record.take(sha.len() as int) == sha);
    assert(record.skip(sha.len() as int + 1) == subject);
    assert(pieces.push(Seq::empty()).drop_last() == pieces);
    assert(pieces.push(record).drop_last() == pieces);
    assert(pieces.push(sha).drop_last() == pieces);
}

/// What a build is: its sha as given, and the commits of the log, which are
/// parted by the unit separator.
pub proof fn law_a_build_is_its_log(sha: Seq<char>, log: Seq<char>, k: int)
    ensures
        ({
            let b = build_of(sha, log);
            let rs = records(crate::text::split(log, '\u{1f}'));
            &&& b.sha == sha
            &&& b.subjects.len() == rs.len()
            &&& b.shas.len() == rs.len()
            &&& 0 <= k < rs.len() ==> (b.shas[k], b.subjects[k]) == rs[k]
        }),
{
}

/// Where a build's identity comes from: what git said counts if it is not
/// blank, and a build argument if it is not empty; a carriage return at the
/// end of a line does not count.
pub proof fn law_blank_sources_do_not_count(text: Seq<char>, fallback: Seq<char>)
    ensures
        said(None) is None,
        crate::text::trim(text).len() == 0 ==> said(Some(text)) is None,
        crate::text::trim(text).len() > 0 ==> said(Some(text)) == Some(crate::text::trim(text)),
        argument(None, fallback) == fallback,
        text.len() == 0 ==> argument(Some(text), fallback) == fallback,
        text.len() > 0 ==> argument(Some(text), fallback) == text,
        without_return(text.push('\r')) == text,
        text.len() == 0 || text.last() != '\r' ==> without_return(text) == text,
{
    reveal_strlit("\r");
    let line = text.push('\r');
    crate::text::law_affixes(line, "\r"@, text);
    assert(line == text + "\r"@);
    if crate::text::strip_suffix(text, "\r"@) is Some {
        let rest = crate::text::strip_suffix(text, "\r"@).unwrap();
        crate::text::law_affixes(text, "\r"@, rest);
        assert(text.last() == "\r"@[0]);
    }
}

/// A proclamation lists no more than [`MAX_SUBJECTS`] subjects, only ones of
/// commits before the build proclaimed last, and none when that is the newest
/// commit.
pub proof fn law_only_news_is_listed(b: BuildView, last: Option<Seq<char>>)
    requires
        b.wf(),
    ensures
        listed(b, last).len() <= MAX_SUBJECTS,
        forall|k: int|
            0 <= k < listed(b, last).len() ==> #[trigger] listed(b, last)[k] == b.subjects[k]
                && last != Some(b.shas[k]),
        b.shas.len() > 0 && last == Some(b.shas[0]) ==> listed(b, last).len() == 0,
        (last is None || !b.shas.contains(last.unwrap())) && b.subjects.len() <= MAX_SUBJECTS
            ==> listed(b, last) == b.subjects,
{
    if let Some(prev) = last {
        b.shas.index_of_first_ensures(prev);
        if b.shas.len() > 0 && prev == b.shas[0] {
            assert(b.shas.contains(prev));
        }
    }
}

/// Every listed subject stands in the proclamation, on a line of its own.
pub proof fn law_listed_subjects_are_told(b: BuildView, last: Option<Seq<char>>, k: int)
    requires
        b.wf(),
        0 <= k < listed(b, last).len(),
    ensures
        crate::text::contains(proclamation(b, last), bullet(listed(b, last)[k])),
{
    let subjects = listed(b, last);
    let line = bullet(subjects[k]);
    let at = bullets(subjects.take(k)).len() as int;
    lemma_bullet(subjects, k);
    let body = bullets(subjects);
    let all = proclamation(b, last);
    let from = OPENING@.len() + at;
    assert(all.subrange(from, from + line.len()) == body.subrange(at, at + line.len()));
    assert(crate::text::occurs_at(all, line, from));
}

proof fn lemma_bullet(subjects: Seq<Seq<char>>, k: int)
    requires
        0 <= k < subjects.len(),
    ensures
        crate::text::occurs_at(
            bullets(subjects),
            bullet(subjects[k]),
            bullets(subjects.take(k)).len() as int,
        ),
    decreases subjects.len(),
{
    let n = subjects.len() - 1;
    let body = bullets(subjects);
    let front = bullets(subjects.drop_last());
    assert(subjects.drop_last() == subjects.take(n));
    if k == n {
        assert(body.subrange(front.len() as int, body.len() as int) == bullet(subjects[k]));
    } else {
        lemma_bullet(subjects.drop_last(), k);
        assert(subjects.drop_last().take(k) == subjects.take(k));
        let at = bullets(subjects.take(k)).len() as int;
        let len = bullet(subjects[k]).len();
        assert(body.subrange(at, at + len) == front.subrange(at, at + len));
    }
}

/// The lines that begin with a dash, in order.
pub open spec fn dashed(lines: Seq<Seq<char>>) -> Seq<Seq<char>>
    decreases lines.len(),
{
    if lines.len() == 0 {
        Seq::empty()
    } else if crate::text::occurs_at(lines.last(), "- "@, 0) {
        dashed(lines.drop_last()).push(lines.last())
    } else {
        dashed(lines.drop_last())
    }
}

/// No line break stands in the sha of a build or in its subjects.
pub open spec fn on_one_line(b: BuildView) -> bool {
    &&& !b.sha.contains('\n')
    &&& forall|i: int| 0 <= i < b.subjects.len() ==> !(#[trigger] b.subjects[i]).contains('\n')
}

/// Of the lines of a proclamation those that begin with a dash are the listed
/// subjects, trimmed and in order, at most [`MAX_SUBJECTS`], and the line that
/// there is more stands there exactly if there are more new commits than that.
pub proof fn law_lines_of_a_proclamation(b: BuildView, last: Option<Seq<char>>)
    requires
        b.wf(),
        on_one_line(b),
    ensures
        ({
            let lines = crate::text::split(proclamation(b, last), '\n');
            let n = newer(b, last);
            &&& dashed(lines) == b.subjects.take(
                if n > 8 {
                    8
                } else {
                    n
                },
            ).map_values(|s: Seq<char>| bullet_line(s))
            &&& lines.contains("...y algunas otras enmiendas menores."@) <==> n > 8
        }),
{
    let subjects = listed(b, last);
    let listing = subjects.map_values(|s: Seq<char>| bullet_line(s));
    let front = seq![OPENING@.drop_last()] + listing;
    let rest = lines_below(b, last);
    let lines = front + rest;
    let more = "...y algunas otras enmiendas menores."@;
    lemma_newer(b, last);
    lemma_lines(b, last);
    lemma_first_letters(b, last);
    lemma_dashed_listing(OPENING@.drop_last(), subjects);
    lemma_dashed_below(front, rest);
    if newer(b, last) > 8 {
        assert(rest[0] == more);
        assert(lines[front.len() as int] == more);
    }
    if lines.contains(more) && newer(b, last) <= 8 {
        let k = choose|k: int| 0 <= k < lines.len() && lines[k] == more;
        assert(lines[k] == more);
        if k < front.len() {
            assert(lines[k] == front[k]);
            if k > 0 {
                assert(front[k] == listing[k - 1]);
                assert(front[k] == bullet_line(subjects[k - 1]));
                assert(front[k][0] == '-') by {
                    reveal_strlit("- ");
                }
            }
        } else {
            assert(lines[k] == rest[k - front.len()]);
        }
    }
}

proof fn lemma_newer(b: BuildView, last: Option<Seq<char>>)
    requires
        b.wf(),
    ensures
        0 <= newer(b, last) <= b.subjects.len(),
        listed(b, last).len() == (if newer(b, last) > 8 {
            8
        } else {
            newer(b, last)
        }),
{
    if let Some(prev) = last {
        b.shas.index_of_first_ensures(prev);
    }
}

/// The lines of a proclamation below the listed subjects.
spec fn lines_below(b: BuildView, last: Option<Seq<char>>) -> Seq<Seq<char>> {
    let end = seq![Seq::<char>::empty(), SEAL@.skip(1) + short(b.sha) + seq!['`']];
    if listed(b, last).len() == 0 {
        seq![NOTHING_NEW@.drop_last()] + end
    } else if newer(b, last) > MAX_SUBJECTS {
        seq![MORE@.drop_last()] + end
    } else {
        end
    }
}

/// The fixed lines hold no line break, and their first letters differ.
proof fn lemma_first_letters(b: BuildView, last: Option<Seq<char>>)
    ensures
        OPENING@.drop_last()[0] == ':',
        MORE@.drop_last() == "...y algunas otras enmiendas menores."@,
        "...y algunas otras enmiendas menores."@.len() > 0,
        "...y algunas otras enmiendas menores."@[0] == '.',
        forall|k: int|
            0 <= k < lines_below(b, last).len() ==> {
                let line = #[trigger] lines_below(b, last)[k];
                line.len() == 0 || line[0] == 'N' || line[0] == '.' || line[0] == '*'
            },
        newer(b, last) <= 8 ==> forall|k: int|
            0 <= k < lines_below(b, last).len() ==> {
                let line = #[trigger] lines_below(b, last)[k];
                line.len() == 0 || line[0] == 'N' || line[0] == '*'
            },
{
    reveal_strlit("...y algunas otras enmiendas menores.\n");
    reveal_strlit("...y algunas otras enmiendas menores.");
    lemma_opening();
    lemma_nothing_new();
    lemma_seal();
    assert(MORE@.drop_last() == "...y algunas otras enmiendas menores."@);
}

proof fn lemma_opening()
    ensures
        OPENING@.len() > 1,
        OPENING@ == OPENING@.drop_last().push('\n'),
        OPENING@[0] == ':',
        !OPENING@.drop_last().contains('\n'),
{
    reveal_strlit(
        ":scroll: ¡Oíd, oíd, buenas gentes de la ínsula! Don Quijote desmonta de Rocinante para pregonar la nueva singladura del código, recién forjada en la fragua de los desarrolladores desde la última crónica:\n",
    );
    assert(OPENING@.last() == '\n');
    assert forall|i: int| 0 <= i < OPENING@.len() - 1 implies #[trigger] OPENING@[i] != '\n' by {}
}

proof fn lemma_nothing_new()
    ensures
        NOTHING_NEW@.len() > 1,
        NOTHING_NEW@ == NOTHING_NEW@.drop_last().push('\n'),
        NOTHING_NEW@[0] == 'N',
        !NOTHING_NEW@.drop_last().contains('\n'),
{
    reveal_strlit(
        "Ningún hecho memorable se ha hallado en los pergaminos, mas el código nunca cesa de mudar.\n",
    );
    assert(NOTHING_NEW@.last() == '\n');
    assert forall|i: int| 0 <= i < NOTHING_NEW@.len() - 1 implies #[trigger] NOTHING_NEW@[i]
        != '\n' by {}
}

proof fn lemma_more()
    ensures
        MORE@.len() > 1,
        MORE@ == MORE@.drop_last().push('\n'),
        !MORE@.drop_last().contains('\n'),
{
    reveal_strlit("...y algunas otras enmiendas menores.\n");
    assert(MORE@.last() == '\n');
    assert forall|i: int| 0 <= i < MORE@.len() - 1 implies #[trigger] MORE@[i] != '\n' by {}
}

proof fn lemma_seal()
    ensures
        SEAL@.len() > 1,
        SEAL@ == seq!['\n'] + SEAL@.skip(1),
        SEAL@[1] == '*',
        !SEAL@.skip(1).contains('\n'),
{
    reveal_strlit("\n*Que quede sellado en el pergamino:* build `");
    assert(SEAL@[0] == '\n');
    assert forall|i: int| 1 <= i < SEAL@.len() implies #[trigger] SEAL@[i] != '\n' by {}
    assert forall|i: int| 0 <= i < SEAL@.skip(1).len() implies #[trigger] SEAL@.skip(1)[i]
        != '\n' by {
        assert(SEAL@.skip(1)[i] == SEAL@[i + 1]);
    }
}

/// An opening line with the listed subjects below it.
spec fn stacked(opening: Seq<char>, subjects: Seq<Seq<char>>) -> Seq<char>
    decreases subjects.len(),
{
    if subjects.len() == 0 {
        opening
    } else {
        stacked(opening, subjects.drop_last()) + seq!['\n'] + bullet_line(subjects.last())
    }
}

proof fn lemma_stacked_text(opening: Seq<char>, subjects: Seq<Seq<char>>)
    ensures
        opening.push('\n') + bullets(subjects) == stacked(opening, subjects).push('\n'),
    decreases subjects.len(),
{
    if subjects.len() > 0 {
        lemma_stacked_text(opening, subjects.drop_last());
        let before = bullets(subjects.drop_last());
        let line = bullet(subjects.last());
        assert(opening.push('\n') + (before + line) == (opening.push('\n') + before) + line);
    }
}

proof fn lemma_stacked_lines(opening: Seq<char>, subjects: Seq<Seq<char>>)
    requires
        !opening.contains('\n'),
        forall|i: int| 0 <= i < subjects.len() ==> !(#[trigger] subjects[i]).contains('\n'),
    ensures
        crate::text::split(stacked(opening, subjects), '\n') == seq![opening]
            + subjects.map_values(|s: Seq<char>| bullet_line(s)),
    decreases subjects.len(),
{
    let f = |s: Seq<char>| bullet_line(s);
    if subjects.len() == 0 {
        crate::text::lemma_split_append(Seq::empty(), '\n', opening);
        assert(seq![opening] + subjects.map_values(f) == seq![opening]);
    } else {
        let fewer = subjects.drop_last();
        assert forall|i: int| 0 <= i < fewer.len() implies !(#[trigger] fewer[i]).contains(
            '\n',
        ) by {
            assert(fewer[i] == subjects[i]);
        }
        lemma_stacked_lines(opening, fewer);
        assert(!subjects[subjects.len() - 1].contains('\n'));
        lemma_bullet_line(subjects.last());
        crate::text::lemma_split_append(
            stacked(opening, fewer),
            '\n',
            bullet_line(subjects.last()),
        );
        assert(subjects.map_values(f) == fewer.map_values(f).push(bullet_line(subjects.last())));
        assert(seq![opening] + subjects.map_values(f) == (seq![opening] + fewer.map_values(
            f,
        )).push(bullet_line(subjects.last())));
    }
}

proof fn lemma_bullet_line(subject: Seq<char>)
    requires
        !subject.contains('\n'),
    ensures
        !bullet_line(subject).contains('\n'),
        crate::text::occurs_at(bullet_line(subject), "- "@, 0),
{
    reveal_strlit("- ");
    reveal_strlit("(sin asunto)");
    let t = crate::text::trim(subject);
    let line = bullet_line(subject);
    crate::text::law_trim(subject);
    assert(line.subrange(0, 2) == "- "@);
    if line.contains('\n') {
        let i = choose|i: int| 0 <= i < line.len() && line[i] == '\n';
        if t.len() > 0 && i >= 2 {
            assert(line[i] == t[i - 2]);
            lemma_trim_keeps_out(subject, '\n', i - 2);
        }
    }
}

/// Trimming brings in no character that was not there.
proof fn lemma_trim_keeps_out(s: Seq<char>, c: char, i: int)
    requires
        !s.contains(c),
        0 <= i < crate::text::trim(s).len(),
    ensures
        crate::text::trim(s)[i] != c,
{
    let u = crate::text::trim_start(s);
    crate::text::lemma_trim_start(s);
    crate::text::lemma_trim_end(u);
    assert(crate::text::trim(s)[i] == u[i]);
    assert(u[i] == s[s.len() - u.len() + i]);
}

/// The lines of a proclamation.
proof fn lemma_lines(b: BuildView, last: Option<Seq<char>>)
    requires
        b.wf(),
        on_one_line(b),
    ensures
        crate::text::split(proclamation(b, last), '\n') == seq![OPENING@.drop_last()] + listed(
            b,
            last,
        ).map_values(|s: Seq<char>| bullet_line(s)) + lines_below(b, last),
{
    let f = |s: Seq<char>| bullet_line(s);
    let subjects = listed(b, last);
    let o = OPENING@.drop_last();
    let front = seq![o] + subjects.map_values(f);
    let empty = Seq::<char>::empty();
    let end = SEAL@.skip(1) + short(b.sha) + seq!['`'];
    lemma_newer(b, last);
    lemma_opening();
    lemma_nothing_new();
    lemma_more();
    lemma_seal();
    assert forall|i: int| 0 <= i < subjects.len() implies !(#[trigger] subjects[i]).contains(
        '\n',
    ) by {
        assert(subjects[i] == b.subjects[i]);
    }
    assert(!end.contains('\n')) by {
        if end.contains('\n') {
            let i = choose|i: int| 0 <= i < end.len() && end[i] == '\n';
            let n = SEAL@.skip(1).len() as int;
            if i < n {
                assert(end[i] == SEAL@.skip(1)[i]);
            } else if i < n + short(b.sha).len() {
                assert(end[i] == b.sha[i - n]);
            }
        }
    }
    lemma_stacked_lines(o, subjects);
    lemma_stacked_text(o, subjects);
    let body = stacked(o, subjects);
    assert(OPENING@ + bullets(subjects) == body + seq!['\n']);
    if subjects.len() == 0 {
        assert(body == o);
        let line = NOTHING_NEW@.drop_last();
        lemma_three_more(body, line, end);
        assert(proclamation(b, last) == body + seq!['\n'] + line + seq!['\n'] + empty + seq!['\n']
            + end);
        assert(front.push(line).push(empty).push(end) == front + lines_below(b, last));
    } else if newer(b, last) > MAX_SUBJECTS {
        let line = MORE@.drop_last();
        lemma_three_more(body, line, end);
        assert(proclamation(b, last) == body + seq!['\n'] + line + seq!['\n'] + empty + seq!['\n']
            + end);
        assert(front.push(line).push(empty).push(end) == front + lines_below(b, last));
    } else {
        assert(!empty.contains('\n'));
        crate::text::lemma_split_append(body, '\n', empty);
        crate::text::lemma_split_append(body + seq!['\n'] + empty, '\n', end);
        assert(proclamation(b, last) == body + seq!['\n'] + empty + seq!['\n'] + end);
        assert(front.push(empty).push(end) == front + lines_below(b, last));
    }
}

/// A line, an empty one and a last one below a text.
proof fn lemma_three_more(body: Seq<char>, line: Seq<char>, end: Seq<char>)
    requires
        !line.contains('\n'),
        !end.contains('\n'),
    ensures
        crate::text::split(
            body + seq!['\n'] + line + seq!['\n'] + Seq::<char>::empty() + seq!['\n'] + end,
            '\n',
        ) == crate::text::split(body, '\n').push(line).push(Seq::empty()).push(end),
{
    let empty = Seq::<char>::empty();
    assert(!empty.contains('\n'));
    crate::text::lemma_split_append(body, '\n', line);
    crate::text::lemma_split_append(body + seq!['\n'] + line, '\n', empty);
    crate::text::lemma_split_append(
        body + seq!['\n'] + line + seq!['\n'] + empty,
        '\n',
        end,
    );
}

/// Below an opening line without a dash the dashed lines are the listing.
proof fn lemma_dashed_listing(opening: Seq<char>, subjects: Seq<Seq<char>>)
    requires
        opening.len() > 0 ==> opening[0] != '-',
    ensures
        dashed(seq![opening] + subjects.map_values(|s: Seq<char>| bullet_line(s)))
            == subjects.map_values(|s: Seq<char>| bullet_line(s)),
    decreases subjects.len(),
{
    reveal_strlit("- ");
    let f = |s: Seq<char>| bullet_line(s);
    let lines = seq![opening] + subjects.map_values(f);
    if subjects.len() == 0 {
        if crate::text::occurs_at(opening, "- "@, 0) {
            assert(opening.subrange(0, 2)[0] == opening[0]);
        }
        assert(lines.drop_last() == Seq::<Seq<char>>::empty());
        assert(dashed(lines.drop_last()) == Seq::<Seq<char>>::empty());
    } else {
        let fewer = subjects.drop_last();
        lemma_dashed_listing(opening, fewer);
        let line = bullet_line(subjects.last());
        assert(line.subrange(0, 2) == "- "@);
        assert(lines.drop_last() == seq![opening] + fewer.map_values(f));
        assert(lines.last() == line);
        assert(subjects.map_values(f) == fewer.map_values(f).push(line));
    }
}

/// Lines without a dash add nothing to the dashed ones.
proof fn lemma_dashed_below(front: Seq<Seq<char>>, rest: Seq<Seq<char>>)
    requires
        forall|k: int|
            0 <= k < rest.len() ==> (#[trigger] rest[k]).len() == 0 || rest[k][0] != '-',
    ensures
        dashed(front + rest) == dashed(front),
    decreases rest.len(),
{
    reveal_strlit("- ");
    if rest.len() == 0 {
        assert(front + rest == front);
    } else {
        let line = rest[rest.len() - 1];
        let fewer = rest.drop_last();
        assert forall|k: int| 0 <= k < fewer.len() implies (#[trigger] fewer[k]).len() == 0
            || fewer[k][0] != '-' by {
            assert(fewer[k] == rest[k]);
        }
        lemma_dashed_below(front, fewer);
        assert((front + rest).drop_last() == front + fewer);
        assert((front + rest).last() == line);
        if crate::text::occurs_at(line, "- "@, 0) {
            assert(line.subrange(0, 2)[0] == line[0]);
        }
    }
}

} // verus!
