//! Character-level string operations.
//!
//! Strings are modelled as `Seq<char>`. Each operation has a spec function
//! that says what it is and an executable function proved against it. The
//! executable side works on `Vec<char>` so that every pass is linear.

use vstd::prelude::*;

verus! {

/// `String::push` appends one character at the end.
pub assume_specification[ String::push ](s: &mut String, c: char)
    ensures
        final(s)@ == old(s)@.push(c),
;

// ---------------------------------------------------------------------------
// Models
// ---------------------------------------------------------------------------

/// The views of a list of strings.
pub open spec fn views(v: Seq<String>) -> Seq<Seq<char>> {
    v.map_values(|s: String| s@)
}

/// The view of an optional string slice.
pub open spec fn opt(s: Option<&str>) -> Option<Seq<char>> {
    match s {
        Some(x) => Some(x@),
        None => None,
    }
}

/// The view of an optional string.
pub open spec fn opt_string(s: Option<String>) -> Option<Seq<char>> {
    match s {
        Some(x) => Some(x@),
        None => None,
    }
}

/// The characters with the Unicode `White_Space` property.
pub open spec fn white(c: char) -> bool {
    let u = c as u32;
    ||| 0x9 <= u <= 0xD
    ||| u == 0x20
    ||| u == 0x85
    ||| u == 0xA0
    ||| u == 0x1680
    ||| 0x2000 <= u <= 0x200A
    ||| u == 0x2028
    ||| u == 0x2029
    ||| u == 0x202F
    ||| u == 0x205F
    ||| u == 0x3000
}

pub open spec fn ascii_digit(c: char) -> bool {
    '0' <= c <= '9'
}

pub open spec fn ascii_alphanumeric(c: char) -> bool {
    ||| '0' <= c <= '9'
    ||| 'A' <= c <= 'Z'
    ||| 'a' <= c <= 'z'
}

/// `pat` stands in `s` at position `i`.
pub open spec fn occurs_at(s: Seq<char>, pat: Seq<char>, i: int) -> bool {
    0 <= i && i + pat.len() <= s.len() && s.subrange(i, i + pat.len()) == pat
}

/// `pat` stands somewhere in `s`.
pub open spec fn contains(s: Seq<char>, pat: Seq<char>) -> bool {
    exists|i: int| occurs_at(s, pat, i)
}

/// The smallest position at which `pat` stands in `s`.
pub open spec fn first_occurrence(s: Seq<char>, pat: Seq<char>) -> Option<int>
    decreases s.len(),
{
    if s.len() < pat.len() {
        None
    } else if s.take(pat.len() as int) == pat {
        Some(0)
    } else if s.len() == 0 {
        None
    } else {
        match first_occurrence(s.skip(1), pat) {
            Some(i) => Some(i + 1),
            None => None,
        }
    }
}

/// What stands between the first occurrence of `pat` and the next one (or
/// the end of the text), if `pat` occurs at all.
pub open spec fn second_piece(s: Seq<char>, pat: Seq<char>) -> Option<Seq<char>> {
    match first_occurrence(s, pat) {
        None => None,
        Some(i) => {
            let rest = s.skip(i + pat.len());
            match first_occurrence(rest, pat) {
                None => Some(rest),
                Some(j) => Some(rest.take(j)),
            }
        },
    }
}

/// `s` with every occurrence of `pat`, taken from the left without overlap,
/// replaced by `with`.
pub open spec fn replace_all(s: Seq<char>, pat: Seq<char>, with: Seq<char>) -> Seq<char>
    recommends
        pat.len() > 0,
    decreases s.len(),
{
    if pat.len() == 0 || s.len() < pat.len() {
        s
    } else if s.take(pat.len() as int) == pat {
        with + replace_all(s.skip(pat.len() as int), pat, with)
    } else {
        seq![s[0]] + replace_all(s.skip(1), pat, with)
    }
}

/// The position of the first `c` in `s`, or the length of `s`.
pub open spec fn index_of(s: Seq<char>, c: char) -> int
    decreases s.len(),
{
    if s.len() == 0 || s[0] == c {
        0
    } else {
        1 + index_of(s.skip(1), c)
    }
}

/// The position of the last `c` in `s`, or -1.
pub open spec fn last_index_of(s: Seq<char>, c: char) -> int
    decreases s.len(),
{
    if s.len() == 0 {
        -1
    } else if s.last() == c {
        s.len() - 1
    } else {
        last_index_of(s.drop_last(), c)
    }
}

/// The pieces of `s` between separators `c`; one more than there are
/// separators.
pub open spec fn split(s: Seq<char>, c: char) -> Seq<Seq<char>>
    decreases s.len(),
    via split_decreases
{
    let i = index_of(s, c);
    if i >= s.len() {
        seq![s]
    } else {
        seq![s.take(i)] + split(s.skip(i + 1), c)
    }
}

#[via_fn]
proof fn split_decreases(s: Seq<char>, c: char) {
    lemma_index_of(s, c);
}

pub open spec fn trim_start(s: Seq<char>) -> Seq<char>
    decreases s.len(),
{
    if s.len() > 0 && white(s[0]) {
        trim_start(s.skip(1))
    } else {
        s
    }
}

pub open spec fn trim_end(s: Seq<char>) -> Seq<char>
    decreases s.len(),
{
    if s.len() > 0 && white(s.last()) {
        trim_end(s.drop_last())
    } else {
        s
    }
}

/// `s` without the white space at its two ends.
pub open spec fn trim(s: Seq<char>) -> Seq<char> {
    trim_end(trim_start(s))
}

/// What follows `prefix` in `s`, if `s` begins with it.
pub open spec fn strip_prefix(s: Seq<char>, prefix: Seq<char>) -> Option<Seq<char>> {
    if occurs_at(s, prefix, 0) {
        Some(s.skip(prefix.len() as int))
    } else {
        None
    }
}

/// What precedes `suffix` in `s`, if `s` ends with it.
pub open spec fn strip_suffix(s: Seq<char>, suffix: Seq<char>) -> Option<Seq<char>> {
    if occurs_at(s, suffix, s.len() - suffix.len()) {
        Some(s.take(s.len() - suffix.len()))
    } else {
        None
    }
}

/// What stands between `prefix` and `suffix`, if `s` begins with the one and
/// the rest ends with the other.
pub open spec fn strip_both(s: Seq<char>, prefix: Seq<char>, suffix: Seq<char>) -> Option<Seq<char>> {
    match strip_prefix(s, prefix) {
        Some(rest) => strip_suffix(rest, suffix),
        None => None,
    }
}

pub open spec fn digit_char(d: int) -> char {
    (d + 0x30) as char
}

/// The decimal numeral of `n`, without leading zeros.
pub open spec fn decimal(n: nat) -> Seq<char>
    decreases n,
{
    if n < 10 {
        seq![digit_char(n as int)]
    } else {
        decimal(n / 10).push(digit_char((n % 10) as int))
    }
}

/// The decimal numeral of `i`, with a leading minus sign below zero.
pub open spec fn decimal_int(i: int) -> Seq<char> {
    if i < 0 {
        seq!['-'] + decimal((-i) as nat)
    } else {
        decimal(i as nat)
    }
}

/// The number that a run of ASCII digits denotes.
pub open spec fn value_of(digits: Seq<char>) -> nat
    decreases digits.len(),
{
    if digits.len() == 0 {
        0
    } else {
        value_of(digits.drop_last()) * 10 + ((digits.last() as u32) - 0x30) as nat
    }
}

pub open spec fn all_digits(s: Seq<char>) -> bool {
    forall|i: int| 0 <= i < s.len() ==> ascii_digit(#[trigger] s[i])
}

/// `s` without a plus sign at its start.
pub open spec fn unsigned_part(s: Seq<char>) -> Seq<char> {
    if s.len() > 0 && s[0] == '+' {
        s.skip(1)
    } else {
        s
    }
}

/// The number that `s` denotes as an unsigned integer no greater than `max`:
/// an optional plus sign, then one or more ASCII digits, nothing else.
pub open spec fn parse_unsigned(s: Seq<char>, max: nat) -> Option<nat> {
    let digits = unsigned_part(s);
    if digits.len() > 0 && all_digits(digits) && value_of(digits) <= max {
        Some(value_of(digits))
    } else {
        None
    }
}

/// Why a text denotes no unsigned integer.
#[derive(Debug, Clone, Copy, PartialEq, Eq, Structural)]
pub enum NumberFault {
    Empty,
    InvalidDigit,
    TooLarge,
}

/// How many ASCII digits stand at the start of `s`.
pub open spec fn leading_digits(s: Seq<char>) -> int
    decreases s.len(),
{
    if s.len() > 0 && ascii_digit(s[0]) {
        1 + leading_digits(s.skip(1))
    } else {
        0
    }
}

/// Why `s` denotes no unsigned integer up to `max`. It is read from the left:
/// a number that has grown too large is that, whatever comes behind it.
pub open spec fn number_fault(s: Seq<char>, max: nat) -> NumberFault {
    let digits = unsigned_part(s);
    if s.len() == 0 {
        NumberFault::Empty
    } else if value_of(digits.take(leading_digits(digits))) > max {
        NumberFault::TooLarge
    } else {
        NumberFault::InvalidDigit
    }
}

/// A fault in words.
pub open spec fn fault_words(fault: NumberFault) -> Seq<char> {
    match fault {
        NumberFault::Empty => "cannot parse integer from empty string"@,
        NumberFault::InvalidDigit => "invalid digit found in string"@,
        NumberFault::TooLarge => "number too large to fit in target type"@,
    }
}

impl NumberFault {
    pub fn message(self) -> (r: &'static str)
        ensures
            r@ == fault_words(self),
    {
        match self {
            NumberFault::Empty => "cannot parse integer from empty string",
            NumberFault::InvalidDigit => "invalid digit found in string",
            NumberFault::TooLarge => "number too large to fit in target type",
        }
    }
}

/// The parts with `sep` between them.
pub open spec fn joined(parts: Seq<Seq<char>>, sep: Seq<char>) -> Seq<char>
    decreases parts.len(),
{
    if parts.len() == 0 {
        Seq::empty()
    } else if parts.len() == 1 {
        parts[0]
    } else {
        joined(parts.drop_last(), sep) + sep + parts.last()
    }
}

// ---------------------------------------------------------------------------
// Facts about the models
// ---------------------------------------------------------------------------

pub proof fn lemma_index_of(s: Seq<char>, c: char)
    ensures
        0 <= index_of(s, c) <= s.len(),
        forall|i: int| 0 <= i < index_of(s, c) ==> s[i] != c,
        index_of(s, c) < s.len() ==> s[index_of(s, c)] == c,
    decreases s.len(),
{
    if s.len() > 0 && s[0] != c {
        lemma_index_of(s.skip(1), c);
        assert forall|i: int| 0 <= i < index_of(s, c) implies s[i] != c by {
            if i > 0 {
                assert(s[i] == s.skip(1)[i - 1]);
            }
        }
    }
}

/// The first `c` stands where it stands first.
pub proof fn lemma_index_of_unique(s: Seq<char>, c: char, i: int)
    requires
        0 <= i <= s.len(),
        i < s.len() ==> s[i] == c,
        forall|j: int| 0 <= j < i ==> s[j] != c,
    ensures
        index_of(s, c) == i,
{
    lemma_index_of(s, c);
}

/// A piece behind one more separator is one more piece.
pub proof fn lemma_split_append(s: Seq<char>, c: char, t: Seq<char>)
    requires
        !t.contains(c),
    ensures
        split(s + seq![c] + t, c) == split(s, c).push(t),
        split(t, c) == seq![t],
    decreases s.len(),
{
    let all = s + seq![c] + t;
    let i = index_of(s, c);
    lemma_index_of(s, c);
    lemma_index_of_unique(t, c, t.len() as int);
    assert(split(t, c) == seq![t]);
    if i < s.len() {
        lemma_index_of_unique(all, c, i);
        assert(all.take(i) == s.take(i));
        assert(all.skip(i + 1) == s.skip(i + 1) + seq![c] + t);
        lemma_split_append(s.skip(i + 1), c, t);
        assert(split(all, c) == seq![s.take(i)] + split(s.skip(i + 1), c).push(t));
        assert(split(s, c) == seq![s.take(i)] + split(s.skip(i + 1), c));
    } else {
        lemma_index_of_unique(all, c, s.len() as int);
        assert(all.take(s.len() as int) == s);
        assert(all.skip(s.len() as int + 1) == t);
        assert(split(all, c) == seq![s] + seq![t]);
        assert(split(s, c) == seq![s]);
    }
}

pub proof fn lemma_last_index_of(s: Seq<char>, c: char)
    ensures
        -1 <= last_index_of(s, c) < s.len(),
        last_index_of(s, c) >= 0 ==> s[last_index_of(s, c)] == c,
        forall|i: int| last_index_of(s, c) < i < s.len() ==> s[i] != c,
    decreases s.len(),
{
    if s.len() > 0 && s.last() != c {
        lemma_last_index_of(s.drop_last(), c);
        assert forall|i: int| last_index_of(s, c) < i < s.len() implies s[i] != c by {
            if i < s.len() - 1 {
                assert(s[i] == s.drop_last()[i]);
            }
        }
    }
}

/// Texts are taken letter for letter, one for one, and a missing one is missing.
pub proof fn law_texts_one_for_one(v: Seq<String>, k: int, s: &str, t: String)
    ensures
        views(v).len() == v.len(),
        0 <= k < v.len() ==> views(v)[k] == v[k]@,
        opt(None) is None,
        opt(Some(s)) == Some(s@),
        opt_string(None) is None,
        opt_string(Some(t)) == Some(t@),
{
}

/// What it means that a text stands in another: there is something before it
/// and something behind it, be it nothing.
pub proof fn law_occurrences(s: Seq<char>, pat: Seq<char>, before: Seq<char>, behind: Seq<char>)
    ensures
        s == before + pat + behind ==> occurs_at(s, pat, before.len() as int) && contains(s, pat),
        contains(s, pat) ==> exists|a: Seq<char>, b: Seq<char>| s == #[trigger] (a + pat + b),
        forall|i: int| #[trigger]
            occurs_at(s, pat, i) ==> 0 <= i && s == s.take(i) + pat + s.skip(i + pat.len()),
{
    let i = before.len() as int;
    if s == before + pat + behind {
        assert(s.subrange(i, i + pat.len()) == pat);
        assert(occurs_at(s, pat, i));
    }
    assert forall|i: int| #[trigger] occurs_at(s, pat, i) implies 0 <= i && s == s.take(i) + pat
        + s.skip(i + pat.len()) by {
        assert(s.take(i) + s.subrange(i, i + pat.len()) + s.skip(i + pat.len()) == s);
    }
    if contains(s, pat) {
        let k = choose|k: int| occurs_at(s, pat, k);
        assert(s == s.take(k) + pat + s.skip(k + pat.len()));
    }
}

/// `first_occurrence` finds the leftmost occurrence, and finds one whenever
/// there is one.
pub proof fn lemma_first_occurrence(s: Seq<char>, pat: Seq<char>)
    ensures
        contains(s, pat) <==> first_occurrence(s, pat) is Some,
        first_occurrence(s, pat) matches Some(i) ==> {
            &&& occurs_at(s, pat, i)
            &&& forall|j: int| j < i ==> !occurs_at(s, pat, j)
        },
    decreases s.len(),
{
    if s.len() < pat.len() {
    } else if s.take(pat.len() as int) == pat {
        assert(s.subrange(0, pat.len() as int) == s.take(pat.len() as int));
        assert(occurs_at(s, pat, 0));
    } else if s.len() > 0 {
        lemma_first_occurrence(s.skip(1), pat);
        assert forall|j: int| #[trigger] occurs_at(s, pat, j) implies occurs_at(
            s.skip(1),
            pat,
            j - 1,
        ) by {
            if j == 0 {
                assert(s.subrange(0, pat.len() as int) == s.take(pat.len() as int));
            }
            assert(s.skip(1).subrange(j - 1, j - 1 + pat.len()) == s.subrange(j, j + pat.len()));
        }
        assert forall|j: int| #[trigger] occurs_at(s.skip(1), pat, j) implies occurs_at(
            s,
            pat,
            j + 1,
        ) by {
            assert(s.skip(1).subrange(j, j + pat.len()) == s.subrange(j + 1, j + 1 + pat.len()));
        }
    }
}

/// Where the leftmost `pat` stands at `k`, the part before it stays, `with`
/// follows, and the rest is replaced on its own.
pub proof fn law_replacing_goes_from_the_left(
    s: Seq<char>,
    pat: Seq<char>,
    with: Seq<char>,
    k: int,
)
    requires
        pat.len() > 0,
        occurs_at(s, pat, k),
        forall|i: int| 0 <= i < k ==> !#[trigger] occurs_at(s, pat, i),
    ensures
        replace_all(s, pat, with) == s.take(k) + with + replace_all(
            s.skip(k + pat.len()),
            pat,
            with,
        ),
    decreases k,
{
    assert(s.take(pat.len() as int) == s.subrange(0, pat.len() as int));
    if k == 0 {
        assert(s.take(0) + with == with);
    } else {
        assert(!occurs_at(s, pat, 0));
        let t = s.skip(1);
        assert(t.subrange(k - 1, k - 1 + pat.len()) == s.subrange(k, k + pat.len()));
        assert forall|i: int| 0 <= i < k - 1 implies !#[trigger] occurs_at(t, pat, i) by {
            assert(!occurs_at(s, pat, i + 1));
            if i + pat.len() <= t.len() {
                assert(t.subrange(i, i + pat.len()) == s.subrange(i + 1, i + 1 + pat.len()));
            }
        }
        law_replacing_goes_from_the_left(t, pat, with, k - 1);
        assert(t.skip(k - 1 + pat.len()) == s.skip(k + pat.len()));
        assert(seq![s[0]] + t.take(k - 1) == s.take(k));
        let rest = replace_all(s.skip(k + pat.len()), pat, with);
        assert(seq![s[0]] + (t.take(k - 1) + with + rest) == s.take(k) + with + rest);
    }
}

/// The leftmost `pat` stands at `k` if no earlier character is its first.
pub proof fn lemma_replace_front(s: Seq<char>, pat: Seq<char>, with: Seq<char>, k: int)
    requires
        pat.len() > 0,
        occurs_at(s, pat, k),
        forall|i: int| 0 <= i < k ==> s[i] != pat[0],
    ensures
        replace_all(s, pat, with) == s.take(k) + with + replace_all(
            s.skip(k + pat.len()),
            pat,
            with,
        ),
{
    assert forall|i: int| 0 <= i < k implies !#[trigger] occurs_at(s, pat, i) by {
        if occurs_at(s, pat, i) {
            assert(s.subrange(i, i + pat.len())[0] == s[i]);
        }
    }
    law_replacing_goes_from_the_left(s, pat, with, k);
}

/// Where `pat` stands nowhere, nothing is replaced.
pub proof fn lemma_replace_none(s: Seq<char>, pat: Seq<char>, with: Seq<char>)
    requires
        pat.len() > 0,
        forall|i: int| !occurs_at(s, pat, i),
    ensures
        replace_all(s, pat, with) == s,
    decreases s.len(),
{
    if s.len() >= pat.len() {
        assert(!occurs_at(s, pat, 0));
        assert(s.take(pat.len() as int) == s.subrange(0, pat.len() as int));
        let t = s.skip(1);
        assert forall|i: int| !occurs_at(t, pat, i) by {
            if occurs_at(t, pat, i) {
                assert(s.subrange(i + 1, i + 1 + pat.len()) == t.subrange(i, i + pat.len()));
                assert(occurs_at(s, pat, i + 1));
            }
        }
        lemma_replace_none(t, pat, with);
        assert(seq![s[0]] + t == s);
    }
}

pub proof fn lemma_trim_start(s: Seq<char>)
    ensures
        trim_start(s).len() <= s.len(),
        trim_start(s) == s.skip(s.len() - trim_start(s).len()),
        trim_start(s).len() > 0 ==> !white(trim_start(s)[0]),
        forall|i: int| 0 <= i < s.len() - trim_start(s).len() ==> white(#[trigger] s[i]),
    decreases s.len(),
{
    if s.len() > 0 && white(s[0]) {
        lemma_trim_start(s.skip(1));
        let k = s.skip(1).len() - trim_start(s).len();
        assert(s.skip(1).skip(k) == s.skip(k + 1));
        assert forall|i: int| 0 <= i < s.len() - trim_start(s).len() implies white(
            #[trigger] s[i],
        ) by {
            if i > 0 {
                assert(s[i] == s.skip(1)[i - 1]);
            }
        }
    } else {
        assert(s.skip(0) == s);
    }
}

pub proof fn lemma_trim_end(s: Seq<char>)
    ensures
        trim_end(s).len() <= s.len(),
        trim_end(s) == s.take(trim_end(s).len() as int),
        trim_end(s).len() > 0 ==> !white(trim_end(s).last()),
        forall|i: int| trim_end(s).len() <= i < s.len() ==> white(#[trigger] s[i]),
    decreases s.len(),
{
    if s.len() > 0 && white(s.last()) {
        lemma_trim_end(s.drop_last());
        assert(s.drop_last().take(trim_end(s).len() as int) == s.take(trim_end(s).len() as int));
        assert forall|i: int| trim_end(s).len() <= i < s.len() implies white(#[trigger] s[i]) by {
            if i < s.len() - 1 {
                assert(s[i] == s.drop_last()[i]);
            }
        }
    } else {
        assert(s.take(s.len() as int) == s);
    }
}

/// Trimming leaves a piece of the text whose two ends are not white space,
/// and trimming again changes nothing.
pub proof fn law_trim(s: Seq<char>)
    ensures
        trim(s).len() <= s.len(),
        trim(s).len() > 0 ==> !white(trim(s)[0]) && !white(trim(s).last()),
        trim(trim(s)) == trim(s),
{
    lemma_trim_start(s);
    lemma_trim_end(trim_start(s));
    let t = trim(s);
    if t.len() > 0 {
        assert(t[0] == trim_start(s)[0]);
    }
    assert(trim_start(t) == t);
    assert(trim_end(t) == t);
}

/// Trimming takes white space off the two ends, and nothing else.
pub proof fn law_trimming_takes_white_ends(s: Seq<char>)
    ensures
        exists|i: int, j: int|
            {
                &&& 0 <= i <= j <= s.len()
                &&& trim(s) == #[trigger] s.subrange(i, j)
                &&& forall|k: int| 0 <= k < i || j <= k < s.len() ==> white(#[trigger] s[k])
            },
{
    lemma_trim_start(s);
    let t = trim_start(s);
    lemma_trim_end(t);
    let i = s.len() - t.len();
    let j = i + trim(s).len();
    assert(trim(s) == s.subrange(i, j));
    assert forall|k: int| 0 <= k < i || j <= k < s.len() implies white(#[trigger] s[k]) by {
        if k >= j {
            assert(s[k] == t[k - i]);
        }
    }
}

/// What splitting gives: pieces without a separator, which make the text
/// again with a separator between each two.
pub proof fn law_split_and_join(s: Seq<char>, c: char)
    ensures
        split(s, c).len() > 0,
        forall|k: int| 0 <= k < split(s, c).len() ==> !(#[trigger] split(s, c)[k]).contains(c),
        joined(split(s, c), seq![c]) == s,
    decreases s.len(),
{
    let i = index_of(s, c);
    lemma_index_of(s, c);
    if i >= s.len() {
        assert(!s.contains(c));
    } else {
        let first = s.take(i);
        let rest = s.skip(i + 1);
        law_split_and_join(rest, c);
        let others = split(rest, c);
        assert(!first.contains(c)) by {
            if first.contains(c) {
                let k = choose|k: int| 0 <= k < first.len() && first[k] == c;
                assert(s[k] == c);
            }
        }
        assert forall|k: int| 0 <= k < split(s, c).len() implies !(#[trigger] split(
            s,
            c,
        )[k]).contains(c) by {
            if k > 0 {
                assert(split(s, c)[k] == others[k - 1]);
            }
        }
        lemma_join_in_front(first, others, seq![c]);
        assert(first + seq![c] + rest == s);
    }
}

proof fn lemma_join_in_front(first: Seq<char>, others: Seq<Seq<char>>, sep: Seq<char>)
    requires
        others.len() > 0,
    ensures
        joined(seq![first] + others, sep) == first + sep + joined(others, sep),
    decreases others.len(),
{
    let all = seq![first] + others;
    assert(all.drop_last() == seq![first] + others.drop_last());
    assert(all.last() == others.last());
    if others.len() == 1 {
        assert(all.drop_last() == seq![first]);
        assert(joined(seq![first], sep) == first);
        assert(joined(others, sep) == others.last());
    } else {
        let fewer = others.drop_last();
        lemma_join_in_front(first, fewer, sep);
        assert(first + sep + joined(fewer, sep) + sep + others.last() == first + sep + (joined(
            fewer,
            sep,
        ) + sep + others.last()));
    }
}

/// What joining gives, part by part.
pub proof fn law_joining(parts: Seq<Seq<char>>, part: Seq<char>, sep: Seq<char>)
    ensures
        joined(Seq::empty(), sep).len() == 0,
        joined(seq![part], sep) == part,
        parts.len() > 0 ==> joined(parts.push(part), sep) == joined(parts, sep) + sep + part,
{
    assert(parts.push(part).drop_last() == parts);
}

/// What stands between affixes: `s` begins with `p`, or ends with it, exactly
/// if it is `p` with the rest behind it, or before it.
pub proof fn law_affixes(s: Seq<char>, p: Seq<char>, rest: Seq<char>)
    ensures
        strip_prefix(s, p) == Some(rest) <==> s == p + rest,
        strip_suffix(s, p) == Some(rest) <==> s == rest + p,
{
    if s.len() >= p.len() {
        let n = p.len() as int;
        let m = s.len() - n;
        assert(s.subrange(0, n) + s.skip(n) == s);
        assert(s.take(m) + s.subrange(m, m + n) == s);
    }
    assert((p + rest).subrange(0, p.len() as int) == p);
    assert((p + rest).skip(p.len() as int) == rest);
    assert((rest + p).subrange(rest.len() as int, (rest + p).len() as int) == p);
    assert((rest + p).take(rest.len() as int) == rest);
}

/// What follows the first occurrence of `pat`, up to the next: there is such
/// a piece exactly if `pat` occurs, no `pat` occurs in it, and a `pat` or the
/// end of the text follows it.
pub proof fn law_second_piece(s: Seq<char>, pat: Seq<char>)
    requires
        pat.len() > 0,
    ensures
        second_piece(s, pat) is Some <==> contains(s, pat),
        second_piece(s, pat) matches Some(mid) ==> exists|i: int|
            {
                &&& #[trigger] occurs_at(s, pat, i)
                &&& forall|j: int| j < i ==> !#[trigger] occurs_at(s, pat, j)
                &&& {
                    ||| s.skip(i + pat.len()) == mid && !contains(mid, pat)
                    ||| occurs_at(s.skip(i + pat.len()), mid + pat, 0) && forall|j: int|
                        j < mid.len() ==> !#[trigger] occurs_at(s.skip(i + pat.len()), pat, j)
                }
            },
{
    lemma_first_occurrence(s, pat);
    if first_occurrence(s, pat) is Some {
        let i = first_occurrence(s, pat).unwrap();
        let rest = s.skip(i + pat.len());
        lemma_first_occurrence(rest, pat);
        assert(occurs_at(s, pat, i));
        if first_occurrence(rest, pat) is Some {
            let j = first_occurrence(rest, pat).unwrap();
            assert(rest.subrange(0, j + pat.len()) == rest.take(j) + pat);
            assert(occurs_at(rest, rest.take(j) + pat, 0));
        }
    }
}

/// The number that a run of digits denotes, digit by digit.
pub proof fn law_digits_count_tenfold(digits: Seq<char>, c: char)
    requires
        '0' <= c <= '9',
    ensures
        value_of(Seq::empty()) == 0,
        value_of(digits.push(c)) == 10 * value_of(digits) + (c as int - '0' as int),
{
    assert(digits.push(c).drop_last() == digits);
}

/// Which texts are read as a number: one or more ASCII digits, with or
/// without a plus sign before them, that denote no more than `max`.
pub proof fn law_what_reads_as_a_number(s: Seq<char>, digits: Seq<char>, max: nat)
    requires
        s == digits || s == seq!['+'] + digits,
        digits.len() > 0,
        forall|i: int| 0 <= i < digits.len() ==> '0' <= #[trigger] digits[i] <= '9',
    ensures
        value_of(digits) <= max ==> parse_unsigned(s, max) == Some(value_of(digits)),
        value_of(digits) > max ==> parse_unsigned(s, max) is None && number_fault(s, max)
            == NumberFault::TooLarge,
{
    assert('0' <= digits[0] <= '9');
    assert((seq!['+'] + digits).skip(1) == digits);
    assert(unsigned_part(s) == digits);
    assert(all_digits(digits));
    lemma_leading_digits(digits, digits.len() as int);
    assert(digits.take(digits.len() as int) == digits);
}

/// Which texts are not: a number is read only from digits, with or without a
/// plus sign; of nothing it is said that it is empty.
pub proof fn law_what_reads_as_no_number(s: Seq<char>, max: nat)
    ensures
        parse_unsigned(s, max) matches Some(n) ==> n <= max && exists|digits: Seq<char>|
            {
                &&& s == digits || s == seq!['+'] + digits
                &&& digits.len() > 0
                &&& forall|i: int| 0 <= i < digits.len() ==> '0' <= #[trigger] digits[i] <= '9'
                &&& n == #[trigger] value_of(digits)
            },
        number_fault(s, max) == NumberFault::Empty <==> s.len() == 0,
{
    if parse_unsigned(s, max) is Some {
        let digits = unsigned_part(s);
        if s.len() > 0 && s[0] == '+' {
            assert(s == seq!['+'] + digits);
        }
        assert(all_digits(digits));
        assert(value_of(digits) == parse_unsigned(s, max).unwrap());
    }
}

/// A text that holds something else behind its digits is invalid, unless the
/// digits before it denote more than `max` already.
pub proof fn law_a_foreign_character_is_invalid(
    digits: Seq<char>,
    c: char,
    rest: Seq<char>,
    max: nat,
)
    requires
        forall|i: int| 0 <= i < digits.len() ==> '0' <= #[trigger] digits[i] <= '9',
        !('0' <= c <= '9'),
        c != '+' || digits.len() > 0,
    ensures
        parse_unsigned(digits + seq![c] + rest, max) is None,
        number_fault(digits + seq![c] + rest, max) == (if value_of(digits) > max {
            NumberFault::TooLarge
        } else {
            NumberFault::InvalidDigit
        }),
{
    let s = digits + seq![c] + rest;
    let n = digits.len() as int;
    if n > 0 {
        assert('0' <= digits[0] <= '9');
        assert(s[0] == digits[0]);
    }
    assert(s[n] == c);
    assert(unsigned_part(s) == s);
    assert(!ascii_digit(s[n]));
    assert forall|k: int| 0 <= k < n implies ascii_digit(#[trigger] s[k]) by {
        assert(s[k] == digits[k]);
    }
    lemma_leading_digits(s, n);
    assert(s.take(n) == digits);
}

/// Numerals: they denote their number, begin with no needless zero, and carry
/// a minus sign below zero only.
pub proof fn law_numerals(n: nat, i: int)
    ensures
        value_of(decimal(n)) == n,
        n > 0 ==> decimal(n)[0] != '0',
        n == 0 ==> decimal(n) == seq!['0'],
        i >= 0 ==> decimal_int(i) == decimal(i as nat),
        i < 0 ==> decimal_int(i) == seq!['-'] + decimal((-i) as nat),
    decreases n,
{
    lemma_decimal(n);
    if n < 10 {
        lemma_digit_char(n as int);
    } else {
        law_numerals(n / 10, i);
        lemma_decimal(n / 10);
    }
}

pub proof fn lemma_leading_digits(s: Seq<char>, n: int)
    requires
        0 <= n <= s.len(),
        forall|k: int| 0 <= k < n ==> ascii_digit(#[trigger] s[k]),
        n < s.len() ==> !ascii_digit(s[n]),
    ensures
        leading_digits(s) == n,
    decreases n,
{
    if n > 0 {
        assert(ascii_digit(s[0]));
        let t = s.skip(1);
        assert forall|k: int| 0 <= k < n - 1 implies ascii_digit(#[trigger] t[k]) by {
            assert(ascii_digit(s[k + 1]));
        }
        lemma_leading_digits(t, n - 1);
    }
}

pub proof fn lemma_digit_char(d: int)
    requires
        0 <= d < 10,
    ensures
        ascii_digit(digit_char(d)),
        (digit_char(d) as u32) - 0x30 == d,
{
}

pub proof fn lemma_decimal(n: nat)
    ensures
        decimal(n).len() > 0,
        all_digits(decimal(n)),
        value_of(decimal(n)) == n,
    decreases n,
{
    if n < 10 {
        lemma_digit_char(n as int);
        assert(decimal(n).drop_last() == Seq::<char>::empty());
        assert(value_of(Seq::<char>::empty()) == 0);
    } else {
        lemma_decimal(n / 10);
        lemma_digit_char((n % 10) as int);
        assert(decimal(n).drop_last() == decimal(n / 10));
    }
}

/// Reading back a numeral gives the number that was written.
pub proof fn law_numeral_round_trip(n: nat, max: nat)
    requires
        n <= max,
    ensures
        parse_unsigned(decimal(n), max) == Some(n),
{
    lemma_decimal(n);
    assert(ascii_digit(decimal(n)[0]));
}

// ---------------------------------------------------------------------------
// Executable operations
// ---------------------------------------------------------------------------

/// Whether `c` is white space.
pub fn is_white(c: char) -> (r: bool)
    ensures
        r == white(c),
{
    let u: u32 = c as u32;
    (0x9 <= u && u <= 0xD) || u == 0x20 || u == 0x85 || u == 0xA0 || u == 0x1680 || (0x2000 <= u
        && u <= 0x200A) || u == 0x2028 || u == 0x2029 || u == 0x202F || u == 0x205F || u == 0x3000
}

/// The characters of `s`.
pub fn chars_of(s: &str) -> (r: Vec<char>)
    ensures
        r@ == s@,
{
    let mut v: Vec<char> = Vec::new();
    for c in it: s.chars()
        invariant
            v@ == it.seq().take(it.index() as int),
            it.seq() == s@,
    {
        v.push(c);
    }
    v
}

/// The characters from position `from` up to position `to`, as a string.
pub fn piece(cs: &Vec<char>, from: usize, to: usize) -> (r: String)
    requires
        from <= to <= cs@.len(),
    ensures
        r@ == cs@.subrange(from as int, to as int),
{
    let mut out = String::new();
    let mut i: usize = from;
    while i < to
        invariant
            from <= i <= to <= cs@.len(),
            out@ == cs@.subrange(from as int, i as int),
        decreases to - i,
    {
        out.push(cs[i]);
        i += 1;
    }
    out
}

/// Whether two strings hold the same characters.
pub fn same(a: &str, b: &str) -> (r: bool)
    ensures
        r == (a@ == b@),
{
    let x = chars_of(a);
    let y = chars_of(b);
    if x.len() != y.len() {
        return false;
    }
    assert(x@.subrange(0, y@.len() as int) == x@);
    stands_at(&x, &y, 0)
}

/// Whether `pat` stands in `cs` at position `i`.
fn stands_at(cs: &Vec<char>, pat: &Vec<char>, i: usize) -> (r: bool)
    requires
        i + pat.len() <= cs.len(),
    ensures
        r == (cs@.subrange(i as int, i + pat@.len()) == pat@),
{
    let mut k: usize = 0;
    while k < pat.len()
        invariant
            i + pat.len() <= cs.len(),
            k <= pat@.len(),
            forall|j: int| 0 <= j < k ==> cs@[i + j] == pat@[j],
        decreases pat@.len() - k,
    {
        if cs[i + k] != pat[k] {
            assert(cs@.subrange(i as int, i + pat@.len())[k as int] != pat@[k as int]);
            return false;
        }
        k += 1;
    }
    assert(cs@.subrange(i as int, i + pat@.len()) =~= pat@);
    true
}

/// The first position at or after `from` at which `pat` stands in `cs`.
pub fn find(cs: &Vec<char>, pat: &Vec<char>, from: usize) -> (r: Option<usize>)
    requires
        from <= cs@.len(),
    ensures
        match r {
            Some(i) => from <= i && i + pat.len() <= cs.len() && first_occurrence(
                cs@.skip(from as int),
                pat@,
            ) == Some(i - from),
            None => first_occurrence(cs@.skip(from as int), pat@) is None,
        },
{
    let mut i: usize = from;
    assert(first_occurrence(cs@.skip(from as int), pat@) matches Some(k) ==> k + 0 == k);
    while pat.len() <= cs.len() - i
        invariant
            from <= i <= cs@.len(),
            match first_occurrence(cs@.skip(i as int), pat@) {
                Some(k) => first_occurrence(cs@.skip(from as int), pat@) == Some(k + i - from),
                None => first_occurrence(cs@.skip(from as int), pat@) is None,
            },
        decreases cs@.len() - i,
    {
        let ghost here = cs@.skip(i as int);
        assert(here.take(pat@.len() as int) == cs@.subrange(i as int, i + pat@.len()));
        if stands_at(cs, pat, i) {
            return Some(i);
        }
        if i == cs.len() {
            return None;
        }
        assert(here.skip(1) == cs@.skip(i + 1));
        i += 1;
    }
    None
}

/// Whether `pat` stands somewhere in `s`.
pub fn has(s: &str, pat: &str) -> (r: bool)
    ensures
        r == contains(s@, pat@),
{
    let cs = chars_of(s);
    let ps = chars_of(pat);
    let found = find(&cs, &ps, 0);
    proof {
        assert(s@.skip(0) == s@);
        lemma_first_occurrence(s@, pat@);
    }
    found.is_some()
}

/// What stands between the first occurrence of `pat` and the next one.
pub fn after_first(s: &str, pat: &str) -> (r: Option<String>)
    ensures
        match r {
            Some(x) => second_piece(s@, pat@) == Some(x@),
            None => second_piece(s@, pat@) is None,
        },
{
    let cs = chars_of(s);
    let ps = chars_of(pat);
    proof {
        assert(s@.skip(0) == s@);
    }
    match find(&cs, &ps, 0) {
        None => None,
        Some(i) => {
            let from: usize = i + ps.len();
            match find(&cs, &ps, from) {
                None => {
                    assert(cs@.subrange(from as int, cs@.len() as int) == cs@.skip(from as int));
                    Some(piece(&cs, from, cs.len()))
                },
                Some(j) => {
                    assert(cs@.subrange(from as int, j as int) == cs@.skip(from as int).take(
                        j - from,
                    ));
                    Some(piece(&cs, from, j))
                },
            }
        },
    }
}

/// `s` with every `pat` replaced by `with`.
pub fn replace(s: &str, pat: &str, with: &str) -> (r: String)
    requires
        pat@.len() > 0,
    ensures
        r@ == replace_all(s@, pat@, with@),
{
    let cs = chars_of(s);
    let ps = chars_of(pat);
    let mut out = String::new();
    let mut i: usize = 0;
    assert(cs@.skip(0) == cs@);
    assert(out@ + replace_all(cs@, ps@, with@) == replace_all(cs@, ps@, with@));
    while i < cs.len()
        invariant
            i <= cs@.len(),
            ps@.len() > 0,
            replace_all(cs@, ps@, with@) == out@ + replace_all(cs@.skip(i as int), ps@, with@),
        decreases cs@.len() - i,
    {
        let ghost rest = cs@.skip(i as int);
        let ghost before = out@;
        if ps.len() <= cs.len() - i {
            assert(rest.take(ps@.len() as int) == cs@.subrange(i as int, i + ps@.len()));
            if stands_at(&cs, &ps, i) {
                out.append(with);
                i += ps.len();
                assert(rest.skip(ps@.len() as int) == cs@.skip(i as int));
                assert(before + (with@ + replace_all(cs@.skip(i as int), ps@, with@)) == out@
                    + replace_all(cs@.skip(i as int), ps@, with@));
            } else {
                out.push(cs[i]);
                i += 1;
                assert(rest.skip(1) == cs@.skip(i as int));
                assert(before + (seq![rest[0]] + replace_all(cs@.skip(i as int), ps@, with@))
                    == out@ + replace_all(cs@.skip(i as int), ps@, with@));
            }
        } else {
            out.push(cs[i]);
            i += 1;
            let ghost tail = cs@.skip(i as int);
            assert(replace_all(tail, ps@, with@) == tail);
            assert(before + rest == out@ + tail);
        }
    }
    assert(cs@.skip(i as int) == Seq::<char>::empty());
    assert(out@ + Seq::<char>::empty() == out@);
    out
}

/// The position of the first `c` at or after `from`, or the length.
fn index_from(cs: &Vec<char>, c: char, from: usize) -> (r: usize)
    requires
        from <= cs@.len(),
    ensures
        from <= r <= cs@.len(),
        r - from == index_of(cs@.skip(from as int), c),
{
    let mut i: usize = from;
    while i < cs.len()
        invariant
            from <= i <= cs@.len(),
            index_of(cs@.skip(from as int), c) == (i - from) + index_of(cs@.skip(i as int), c),
        decreases cs@.len() - i,
    {
        if cs[i] == c {
            return i;
        }
        assert(cs@.skip(i as int).skip(1) == cs@.skip(i + 1));
        i += 1;
    }
    i
}

/// The pieces of `s` between separators `c`.
pub fn split_on(s: &str, c: char) -> (r: Vec<String>)
    ensures
        views(r@) == split(s@, c),
{
    let cs = chars_of(s);
    let mut out: Vec<String> = Vec::new();
    let mut from: usize = 0;
    assert(cs@.skip(0) == cs@);
    assert(views(out@) + split(cs@, c) == split(cs@, c));
    loop
        invariant
            from <= cs@.len(),
            cs@ == s@,
            split(s@, c) == views(out@) + split(cs@.skip(from as int), c),
        decreases cs@.len() - from,
    {
        let ghost rest = cs@.skip(from as int);
        let ghost before = out@;
        let i = index_from(&cs, c, from);
        let part = piece(&cs, from, i);
        assert(part@ == rest.take(i - from));
        out.push(part);
        assert(views(out@) == views(before).push(part@));
        if i == cs.len() {
            assert(rest.take(i - from) == rest);
            assert(views(before) + seq![rest] == views(before).push(rest));
            return out;
        }
        assert(rest.skip(i - from + 1) == cs@.skip(i + 1));
        assert(views(before) + (seq![rest.take(i - from)] + split(cs@.skip(i + 1), c))
            == views(before).push(rest.take(i - from)) + split(cs@.skip(i + 1), c));
        from = i + 1;
    }
}

/// The two pieces of `s` around the first `c`, if there is one.
pub fn split_once(s: &str, c: char) -> (r: Option<(String, String)>)
    ensures
        match r {
            Some((a, b)) => {
                let i = index_of(s@, c);
                i < s@.len() && a@ == s@.take(i) && b@ == s@.skip(i + 1)
            },
            None => index_of(s@, c) == s@.len(),
        },
{
    let cs = chars_of(s);
    assert(cs@.skip(0) == cs@);
    let i = index_from(&cs, c, 0);
    if i == cs.len() {
        None
    } else {
        let a = piece(&cs, 0, i);
        let b = piece(&cs, i + 1, cs.len());
        assert(cs@.subrange(0, i as int) == cs@.take(i as int));
        assert(cs@.subrange(i + 1, cs@.len() as int) == cs@.skip(i + 1));
        Some((a, b))
    }
}

/// The two pieces of `s` around the last `c`, if there is one.
pub fn rsplit_once(s: &str, c: char) -> (r: Option<(String, String)>)
    ensures
        match r {
            Some((a, b)) => {
                let i = last_index_of(s@, c);
                i >= 0 && a@ == s@.take(i) && b@ == s@.skip(i + 1)
            },
            None => last_index_of(s@, c) < 0,
        },
{
    let cs = chars_of(s);
    let mut n: usize = cs.len();
    assert(cs@.take(n as int) == cs@);
    while n > 0
        invariant
            n <= cs@.len(),
            cs@ == s@,
            last_index_of(s@, c) == last_index_of(cs@.take(n as int), c),
        decreases n,
    {
        if cs[n - 1] == c {
            let a = piece(&cs, 0, n - 1);
            let b = piece(&cs, n, cs.len());
            assert(cs@.subrange(0, n - 1) == cs@.take(n - 1));
            assert(cs@.subrange(n as int, cs@.len() as int) == cs@.skip(n as int));
            return Some((a, b));
        }
        assert(cs@.take(n as int).drop_last() == cs@.take(n - 1));
        n -= 1;
    }
    None
}

/// `s` without the white space at its start.
pub fn trimmed_start(s: &str) -> (r: String)
    ensures
        r@ == trim_start(s@),
{
    let cs = chars_of(s);
    let mut i: usize = 0;
    assert(cs@.skip(0) == cs@);
    while i < cs.len() && is_white(cs[i])
        invariant
            i <= cs@.len(),
            cs@ == s@,
            trim_start(s@) == trim_start(cs@.skip(i as int)),
        decreases cs@.len() - i,
    {
        assert(cs@.skip(i as int).skip(1) == cs@.skip(i + 1));
        i += 1;
    }
    assert(cs@.subrange(i as int, cs@.len() as int) == cs@.skip(i as int));
    piece(&cs, i, cs.len())
}

/// `s` without the white space at its two ends.
pub fn trimmed(s: &str) -> (r: String)
    ensures
        r@ == trim(s@),
{
    let start = trimmed_start(s);
    let cs = chars_of(start.as_str());
    let mut n: usize = cs.len();
    assert(cs@.take(n as int) == cs@);
    while n > 0 && is_white(cs[n - 1])
        invariant
            n <= cs@.len(),
            cs@ == trim_start(s@),
            trim_end(cs@) == trim_end(cs@.take(n as int)),
        decreases n,
    {
        assert(cs@.take(n as int).drop_last() == cs@.take(n - 1));
        n -= 1;
    }
    assert(cs@.subrange(0, n as int) == cs@.take(n as int));
    piece(&cs, 0, n)
}

/// What follows `prefix` in `s`, if `s` begins with it.
pub fn without_prefix(s: &str, prefix: &str) -> (r: Option<String>)
    ensures
        match r {
            Some(x) => strip_prefix(s@, prefix@) == Some(x@),
            None => strip_prefix(s@, prefix@) is None,
        },
{
    let cs = chars_of(s);
    let ps = chars_of(prefix);
    if ps.len() <= cs.len() && stands_at(&cs, &ps, 0) {
        assert(cs@.subrange(ps@.len() as int, cs@.len() as int) == cs@.skip(ps@.len() as int));
        Some(piece(&cs, ps.len(), cs.len()))
    } else {
        None
    }
}

/// What precedes `suffix` in `s`, if `s` ends with it.
pub fn without_suffix(s: &str, suffix: &str) -> (r: Option<String>)
    ensures
        match r {
            Some(x) => strip_suffix(s@, suffix@) == Some(x@),
            None => strip_suffix(s@, suffix@) is None,
        },
{
    let cs = chars_of(s);
    let ps = chars_of(suffix);
    if ps.len() <= cs.len() && stands_at(&cs, &ps, cs.len() - ps.len()) {
        let n: usize = cs.len() - ps.len();
        assert(cs@.subrange(0, n as int) == cs@.take(n as int));
        Some(piece(&cs, 0, n))
    } else {
        None
    }
}

/// What stands in `s` between `prefix` and `suffix`.
pub fn between(s: &str, prefix: &str, suffix: &str) -> (r: Option<String>)
    ensures
        match r {
            Some(x) => strip_both(s@, prefix@, suffix@) == Some(x@),
            None => strip_both(s@, prefix@, suffix@) is None,
        },
{
    match without_prefix(s, prefix) {
        Some(rest) => without_suffix(rest.as_str(), suffix),
        None => None,
    }
}

fn digit(d: u128) -> (r: char)
    requires
        d < 10,
    ensures
        r == digit_char(d as int),
{
    match d {
        0 => '0',
        1 => '1',
        2 => '2',
        3 => '3',
        4 => '4',
        5 => '5',
        6 => '6',
        7 => '7',
        8 => '8',
        _ => '9',
    }
}

/// The decimal numeral of `n`.
pub fn numeral(n: u128) -> (r: String)
    ensures
        r@ == decimal(n as nat),
    decreases n,
{
    if n < 10 {
        let mut out = String::new();
        out.push(digit(n));
        assert(out@ == seq![digit_char(n as int)]);
        out
    } else {
        let mut out = numeral(n / 10);
        out.push(digit(n % 10));
        out
    }
}

/// The decimal numeral of `i`.
pub fn numeral_signed(i: i64) -> (r: String)
    ensures
        r@ == decimal_int(i as int),
{
    if i < 0 {
        let magnitude: u128 = (-(i as i128)) as u128;
        let mut out = String::new();
        out.push('-');
        assert(out@ == seq!['-']);
        let digits = numeral(magnitude);
        out.append(digits.as_str());
        out
    } else {
        numeral(i as u128)
    }
}

/// The number that `s` denotes, if it is an unsigned integer no greater than
/// `max`, and otherwise why it denotes none.
pub fn unsigned(s: &str, max: u64) -> (r: Result<u64, NumberFault>)
    ensures
        match r {
            Ok(n) => parse_unsigned(s@, max as nat) == Some(n as nat),
            Err(fault) => parse_unsigned(s@, max as nat) is None && fault == number_fault(
                s@,
                max as nat,
            ),
        },
{
    let cs = chars_of(s);
    if cs.len() == 0 {
        return Err(NumberFault::Empty);
    }
    let from: usize = if cs[0] == '+' {
        1
    } else {
        0
    };
    let ghost digits = unsigned_part(s@);
    assert(digits == cs@.skip(from as int));
    let mut i: usize = from;
    let mut v: u64 = 0;
    assert(digits.take(0) == Seq::<char>::empty());
    let mut fits = true;
    while i < cs.len()
        invariant
            0 < cs@.len(),
            from <= i <= cs@.len(),
            cs@ == s@,
            digits == cs@.skip(from as int),
            digits == unsigned_part(s@),
            forall|k: int| 0 <= k < i - from ==> ascii_digit(#[trigger] digits[k]),
            fits ==> v as nat == value_of(digits.take(i - from)) && v <= max,
            !fits ==> value_of(digits.take(i - from)) > max,
        decreases cs@.len() - i,
    {
        let c = cs[i];
        assert(digits[i - from] == c);
        if !('0' <= c && c <= '9') {
            assert(!ascii_digit(digits[i - from]));
            proof {
                lemma_leading_digits(digits, i - from);
            }
            return Err(
                if fits {
                    NumberFault::InvalidDigit
                } else {
                    NumberFault::TooLarge
                },
            );
        }
        let d: u64 = (c as u64) - 0x30;
        let ghost upto = digits.take(i - from);
        let ghost next = digits.take(i + 1 - from);
        assert(next.drop_last() == upto);
        assert(next.last() == c);
        assert(value_of(next) == value_of(upto) * 10 + d);
        if fits {
            let wide: u128 = (v as u128) * 10 + (d as u128);
            if wide <= max as u128 {
                v = wide as u64;
            } else {
                fits = false;
            }
        }
        i += 1;
    }
    proof {
        lemma_leading_digits(digits, digits.len() as int);
        assert(digits.take(i - from) == digits);
    }
    if !fits {
        Err(NumberFault::TooLarge)
    } else if from == cs.len() {
        Err(NumberFault::InvalidDigit)
    } else {
        Ok(v)
    }
}

/// A string, if there is one, as a slice.
pub fn as_slice(s: &Option<String>) -> (r: Option<&str>)
    ensures
        opt(r) == opt_string(*s),
{
    match s {
        Some(x) => Some(x.as_str()),
        None => None,
    }
}

/// Three pieces in a row.
pub fn glue(a: &str, b: &str, c: &str) -> (r: String)
    ensures
        r@ == a@ + b@ + c@,
{
    let mut r = String::from_str(a);
    r.append(b);
    r.append(c);
    r
}

/// The parts with `sep` between them.
pub fn join(parts: &Vec<String>, sep: &str) -> (r: String)
    ensures
        r@ == joined(views(parts@), sep@),
{
    let mut out = String::new();
    let ghost all = views(parts@);
    for k in 0..parts.len()
        invariant
            all == views(parts@),
            out@ == joined(all.take(k as int), sep@),
    {
        if k > 0 {
            out.append(sep);
        }
        out.append(parts[k].as_str());
        proof {
            let next = all.take(k + 1);
            assert(next.drop_last() == all.take(k as int));
            assert(next.last() == parts@[k as int]@);
            assert(out@ == joined(next, sep@));
        }
    }
    assert(all.take(all.len() as int) == all);
    out
}

} // verus!
