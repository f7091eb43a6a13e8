//! Reading the server's replies to `list` and `spark tps`.

use vstd::prelude::*;
use crate::patterns::{all_captures, erase_matches, first_captures, COLOR_CODE, FIGURE, LIST_REPLY};
use crate::text::{after_first, chars_of, find, piece, split_on, trimmed, trimmed_start, unsigned, without_prefix};

verus! {

/// Ticks per second over five stretches of time, each as the decimal numeral
/// that the server sent.
#[derive(Debug, PartialEq, Eq, Clone)]
pub struct Tps {
    pub last_5s: String,
    pub last_10s: String,
    pub last_1m: String,
    pub last_5m: String,
    pub last_15m: String,
    pub catching_up: bool,
}

#[derive(Debug, PartialEq, Eq, Clone)]
pub struct PlayerList {
    pub online: u32,
    pub max: u32,
    pub names: Vec<String>,
}

/// `raw` without its colour codes.
pub fn strip_colors(raw: &str) -> (r: String)
    ensures
        r@ == crate::patterns::without_color_codes(raw@),
{
    erase_matches(COLOR_CODE, raw)
}

/// The pieces that are not empty once trimmed, trimmed.
pub open spec fn trimmed_names(pieces: Seq<Seq<char>>) -> Seq<Seq<char>>
    decreases pieces.len(),
{
    if pieces.len() == 0 {
        Seq::empty()
    } else {
        let earlier = trimmed_names(pieces.drop_last());
        let name = crate::text::trim(pieces.last());
        if name.len() == 0 {
            earlier
        } else {
            earlier.push(name)
        }
    }
}

/// What a reply to `list` says: players online, the most there can be, and
/// the names.
pub open spec fn list_of(raw: Seq<char>) -> Option<(nat, nat, Seq<Seq<char>>)> {
    match crate::patterns::list_reply(crate::patterns::without_color_codes(raw)) {
        None => None,
        Some((online, max, rest)) => match (
            crate::text::parse_unsigned(online, u32::MAX as nat),
            crate::text::parse_unsigned(max, u32::MAX as nat),
        ) {
            (Some(o), Some(m)) => Some((o, m, trimmed_names(crate::text::split(rest, ',')))),
            _ => None,
        },
    }
}

/// Reads a reply to `list`.
pub fn parse_list(raw: &str) -> (r: Option<PlayerList>)
    ensures
        match r {
            Some(l) => list_of(raw@) == Some(
                (l.online as nat, l.max as nat, crate::text::views(l.names@)),
            ),
            None => list_of(raw@) is None,
        },
{
    let clean = strip_colors(raw);
    match first_captures(LIST_REPLY, clean.as_str()) {
        None => None,
        Some(groups) => {
            let names = names_in(groups[3].as_str());
            match (
                unsigned(groups[1].as_str(), u32::MAX as u64),
                unsigned(groups[2].as_str(), u32::MAX as u64),
            ) {
                (Ok(online), Ok(max)) => Some(
                    PlayerList { online: online as u32, max: max as u32, names },
                ),
                _ => None,
            }
        },
    }
}

/// The names in a comma-separated list.
fn names_in(rest: &str) -> (names: Vec<String>)
    ensures
        crate::text::views(names@) == trimmed_names(crate::text::split(rest@, ',')),
{
    let pieces = split_on(rest, ',');
    let ghost all = crate::text::views(pieces@);
    let mut names: Vec<String> = Vec::new();
    let mut i: usize = 0;
    assert(all.take(0) == Seq::<Seq<char>>::empty());
    assert(crate::text::views(names@) == Seq::<Seq<char>>::empty());
    while i < pieces.len()
        invariant
            i <= pieces@.len(),
            all == crate::text::views(pieces@),
            crate::text::views(names@) == trimmed_names(all.take(i as int)),
        decreases pieces@.len() - i,
    {
        let name = trimmed(pieces[i].as_str());
        assert(all.take(i + 1).drop_last() == all.take(i as int));
        assert(all.take(i + 1).last() == pieces@[i as int]@);
        if !name.as_str().is_empty() {
            let ghost before = names@;
            names.push(name);
            assert(crate::text::views(names@) == crate::text::views(before).push(name@));
        }
        i += 1;
    }
    assert(all.take(i as int) == all);
    names
}

/// How the pieces of a list are read, one by one: without the white space at
/// their ends, and a blank one not at all.
pub proof fn law_names_are_trimmed(pieces: Seq<Seq<char>>, p: Seq<char>)
    ensures
        trimmed_names(Seq::empty()).len() == 0,
        crate::text::trim(p).len() == 0 ==> trimmed_names(pieces.push(p)) == trimmed_names(pieces),
        crate::text::trim(p).len() > 0 ==> trimmed_names(pieces.push(p)) == trimmed_names(
            pieces,
        ).push(crate::text::trim(p)),
{
    assert(pieces.push(p).drop_last() == pieces);
}

/// What a reply to `list` says, in general: with its colour codes left out it
/// must read as such a reply, and its two numbers must fit 32 bits; the names
/// are the pieces between the commas.
pub proof fn law_a_list_needs_its_numbers(
    raw: Seq<char>,
    online: Seq<char>,
    max: Seq<char>,
    rest: Seq<char>,
)
    ensures
        crate::patterns::list_reply(crate::patterns::without_color_codes(raw)) is None ==> list_of(
            raw,
        ) is None,
        crate::patterns::list_reply(crate::patterns::without_color_codes(raw)) == Some(
            (online, max, rest),
        ) ==> match (
            crate::text::parse_unsigned(online, 0xFFFF_FFFF),
            crate::text::parse_unsigned(max, 0xFFFF_FFFF),
        ) {
            (Some(o), Some(m)) => list_of(raw) == Some(
                (o, m, trimmed_names(crate::text::split(rest, ','))),
            ),
            _ => list_of(raw) is None,
        },
{
}

/// A name that a list can hold: not blank, without white space at its ends,
/// and without the characters that part names, lines and colour codes.
pub open spec fn listable(name: Seq<char>) -> bool {
    &&& name.len() > 0
    &&& !crate::text::white(name[0])
    &&& !crate::text::white(name.last())
    &&& forall|i: int|
        0 <= i < name.len() ==> #[trigger] name[i] != ',' && name[i] != '\n' && name[i] != '§'
}

/// The server's reply to `list` is read back: whatever the numbers, up to 32
/// bits, and whoever is online.
pub proof fn law_list_round_trip(online: u32, max: u32, names: Seq<Seq<char>>)
    requires
        forall|k: int| 0 <= k < names.len() ==> listable(#[trigger] names[k]),
    ensures
        list_of(
            "There are "@ + (crate::text::decimal(online as nat) + (" of a max of "@ + (
            crate::text::decimal(max as nat) + (" players online: "@ + crate::text::joined(
                names,
                ", "@,
            ))))),
        ) == Some((online as nat, max as nat, names)),
{
    let a = crate::text::decimal(online as nat);
    let b = crate::text::decimal(max as nat);
    let list = crate::text::joined(names, ", "@);
    crate::text::lemma_decimal(online as nat);
    crate::text::lemma_decimal(max as nat);
    crate::text::law_numeral_round_trip(online as nat, u32::MAX as nat);
    crate::text::law_numeral_round_trip(max as nat, u32::MAX as nat);
    lemma_joined_names(names);
    assert forall|i: int| 0 <= i < a.len() implies '0' <= #[trigger] a[i] <= '9' by {
        assert(crate::text::ascii_digit(a[i]));
    }
    assert forall|i: int| 0 <= i < b.len() implies '0' <= #[trigger] b[i] <= '9' by {
        assert(crate::text::ascii_digit(b[i]));
    }
    let raw = "There are "@ + (a + (" of a max of "@ + (b + (" players online: "@ + list))));
    lemma_reply_is_clear(a, b, list);
    crate::patterns::lemma_no_colour_codes(raw);
    lemma_reply_groups(a, b, list);
    law_a_list_needs_its_numbers(raw, a, b, list);
}

/// No sign of a colour code stands in the text.
spec fn clear(s: Seq<char>) -> bool {
    forall|i: int| 0 <= i < s.len() ==> #[trigger] s[i] != '§'
}

proof fn lemma_clear(a: Seq<char>, b: Seq<char>)
    requires
        clear(a),
        clear(b),
    ensures
        clear(a + b),
{
    let all = a + b;
    assert forall|i: int| 0 <= i < all.len() implies #[trigger] all[i] != '§' by {
        if i < a.len() {
            assert(all[i] == a[i]);
        } else {
            assert(all[i] == b[i - a.len()]);
        }
    }
}

/// No colour code stands in a reply if none stands in its list.
#[verifier::spinoff_prover]
proof fn lemma_reply_is_clear(a: Seq<char>, b: Seq<char>, list: Seq<char>)
    requires
        digits(a),
        digits(b),
        clear(list),
    ensures
        clear("There are "@ + (a + (" of a max of "@ + (b + (" players online: "@ + list))))),
{
    reveal_strlit("There are ");
    reveal_strlit(" of a max of ");
    reveal_strlit(" players online: ");
    assert(clear(a) && clear(b));
    lemma_clear(" players online: "@, list);
    lemma_clear(b, " players online: "@ + list);
    lemma_clear(" of a max of "@, b + (" players online: "@ + list));
    lemma_clear(a, " of a max of "@ + (b + (" players online: "@ + list)));
    lemma_clear(
        "There are "@,
        a + (" of a max of "@ + (b + (" players online: "@ + list))),
    );
}

/// The groups of a reply to `list`: the two numbers and the list.
#[verifier::spinoff_prover]
proof fn lemma_reply_groups(a: Seq<char>, b: Seq<char>, list: Seq<char>)
    requires
        digits(a),
        digits(b),
        forall|i: int| 0 <= i < list.len() ==> #[trigger] list[i] != '\n',
        list.len() > 0 ==> !crate::text::white(list[0]),
    ensures
        crate::patterns::list_reply(
            "There are "@ + (a + (" of a max of "@ + (b + (" players online: "@ + list)))),
        ) == Some((a, b, list)),
{
    reveal_strlit(" of a max of ");
    reveal_strlit(" players online: ");
    reveal_strlit(" players online");
    let r4 = " players online: "@ + list;
    let r3 = b + r4;
    let r2 = " of a max of "@ + r3;
    let r1 = a + r2;
    let raw = "There are "@ + r1;
    crate::text::law_affixes(raw, "There are "@, r1);
    crate::patterns::lemma_digit_run_front(a, r2);
    assert(r1.skip(a.len() as int) == r2);
    crate::text::law_affixes(r2, " of a max of "@, r3);
    crate::patterns::lemma_digit_run_front(b, r4);
    assert(r3.skip(b.len() as int) == r4);
    let s3 = seq![':', ' '] + list;
    assert(r4 == " players online"@ + s3);
    crate::text::law_affixes(r4, " players online"@, s3);
    lemma_rest_of_reply(list);
    assert(crate::patterns::list_reply_at_start(raw) == Some((a, b, list)));
}

/// Behind the colon and a space stands the list, up to the end of the line.
proof fn lemma_rest_of_reply(list: Seq<char>)
    requires
        forall|i: int| 0 <= i < list.len() ==> #[trigger] list[i] != '\n',
        list.len() > 0 ==> !crate::text::white(list[0]),
    ensures
        ({
            let s3 = seq![':', ' '] + list;
            &&& s3.len() > 0 && s3[0] == ':'
            &&& crate::text::trim_start(s3.skip(1)) == list
            &&& list.take(crate::text::index_of(list, '\n')) == list
        }),
{
    let s3 = seq![':', ' '] + list;
    let s4 = seq![' '] + list;
    assert(s3.skip(1) == s4);
    assert(s4.skip(1) == list);
    assert(crate::text::trim_start(s4) == crate::text::trim_start(list));
    assert(crate::text::trim_start(list) == list);
    crate::text::lemma_index_of_unique(list, '\n', list.len() as int);
    assert(list.take(list.len() as int) == list);
}

/// A list of names: it holds nothing but the names and what parts them, begins
/// with the first, and is read back.
proof fn lemma_joined_names(names: Seq<Seq<char>>)
    requires
        forall|k: int| 0 <= k < names.len() ==> listable(#[trigger] names[k]),
    ensures
        ({
            let list = crate::text::joined(names, ", "@);
            &&& forall|i: int| 0 <= i < list.len() ==> #[trigger] list[i] != '\n' && list[i] != '§'
            &&& names.len() > 0 ==> list.len() > 0
            &&& names.len() == 0 ==> list.len() == 0
            &&& list.len() > 0 ==> !crate::text::white(list[0])
            &&& trimmed_names(crate::text::split(list, ',')) == names
        }),
    decreases names.len(),
{
    reveal_strlit(", ");
    let list = crate::text::joined(names, ", "@);
    if names.len() == 0 {
        crate::text::lemma_split_append(Seq::empty(), ',', list);
        assert(seq![list].drop_last() == Seq::<Seq<char>>::empty());
        assert(trimmed_names(seq![list].drop_last()) == names);
        assert(crate::text::trim(seq![list].last()).len() == 0) by {
            crate::text::law_trim(list);
        }
    } else if names.len() == 1 {
        let name = names[0];
        assert(listable(name));
        lemma_lone_name(name);
        crate::text::lemma_split_append(Seq::empty(), ',', name);
        assert(seq![name].drop_last() == Seq::<Seq<char>>::empty());
        assert(trimmed_names(seq![name].drop_last()) == Seq::<Seq<char>>::empty());
        assert(trimmed_names(seq![name]) == seq![name]);
        assert(names == seq![name]);
    } else {
        let fewer = names.drop_last();
        let name = names[names.len() - 1];
        assert forall|k: int| 0 <= k < fewer.len() implies listable(#[trigger] fewer[k]) by {
            assert(listable(names[k]));
        }
        lemma_joined_names(fewer);
        assert(listable(name));
        lemma_lone_name(name);
        let front = crate::text::joined(fewer, ", "@);
        let last = seq![' '] + name;
        assert(list == front + seq![','] + last);
        crate::text::lemma_split_append(front, ',', last);
        let pieces = crate::text::split(front, ',');
        law_names_are_trimmed(pieces, last);
        assert(fewer.push(name) == names);
        assert forall|i: int| 0 <= i < list.len() implies #[trigger] list[i] != '\n' && list[i]
            != '§' by {
            if i < front.len() {
                assert(list[i] == front[i]);
            } else if i >= front.len() + 2 {
                assert(list[i] == name[i - front.len() - 2]);
            }
        }
        assert(list[0] == front[0]);
    }
}

/// A name stands for itself, with or without a space before it.
proof fn lemma_lone_name(name: Seq<char>)
    requires
        listable(name),
    ensures
        crate::text::trim(name) == name,
        crate::text::trim(seq![' '] + name) == name,
        !name.contains(','),
        !(seq![' '] + name).contains(','),
{
    let spaced = seq![' '] + name;
    assert(crate::text::trim_start(name) == name);
    assert(crate::text::trim_end(name) == name);
    assert(spaced.skip(1) == name);
    assert(crate::text::trim_start(spaced) == crate::text::trim_start(name));
    if spaced.contains(',') {
        let i = choose|i: int| 0 <= i < spaced.len() && spaced[i] == ',';
        assert(spaced[i] == name[i - 1]);
    }
}

/// The part of a reply to `spark tps` that holds the numbers: what follows
/// the heading, after a leading marker and up to the next one.
pub open spec fn tps_numbers(clean: Seq<char>) -> Option<Seq<char>> {
    match crate::text::second_piece(clean, "TPS from last 5s, 10s, 1m, 5m, 15m:"@) {
        None => None,
        Some(after) => {
            let start = crate::text::trim_start(after);
            let body = match crate::text::strip_prefix(start, "[⚡]"@) {
                Some(rest) => crate::text::trim_start(rest),
                None => start,
            };
            match crate::text::first_occurrence(body, "[⚡]"@) {
                Some(end) => Some(body.take(end)),
                None => Some(body),
            }
        },
    }
}

/// A numeral that reads as a number: its digits are ASCII digits.
pub open spec fn plain_numeral(s: Seq<char>) -> bool {
    forall|i: int| 0 <= i < s.len() ==> (crate::text::ascii_digit(#[trigger] s[i]) || s[i] == '.')
}

/// What a reply to `spark tps` says: its first five numbers, and whether any
/// of them is starred.
pub open spec fn tps_of(raw: Seq<char>) -> Option<(Seq<Seq<char>>, bool)> {
    match tps_numbers(crate::patterns::without_color_codes(raw)) {
        None => None,
        Some(text) => {
            let found = crate::patterns::figures(text);
            if found.len() >= 5 && (forall|i: int|
                0 <= i < 5 ==> plain_numeral((#[trigger] found[i]).1)) {
                Some(
                    (
                        seq![found[0].1, found[1].1, found[2].1, found[3].1, found[4].1],
                        exists|i: int| 0 <= i < 5 && (#[trigger] found[i]).0,
                    ),
                )
            } else {
                None
            }
        },
    }
}

fn is_plain_numeral(s: &str) -> (r: bool)
    ensures
        r == plain_numeral(s@),
{
    let cs = chars_of(s);
    let mut i: usize = 0;
    while i < cs.len()
        invariant
            i <= cs@.len(),
            cs@ == s@,
            forall|k: int|
                0 <= k < i ==> (crate::text::ascii_digit(#[trigger] s@[k]) || s@[k] == '.'),
        decreases cs@.len() - i,
    {
        let c = cs[i];
        if !(('0' <= c && c <= '9') || c == '.') {
            assert(s@[i as int] == c);
            return false;
        }
        i += 1;
    }
    true
}

fn tps_text(clean: &str) -> (r: Option<String>)
    ensures
        match r {
            Some(x) => tps_numbers(clean@) == Some(x@),
            None => tps_numbers(clean@) is None,
        },
{
    match after_first(clean, "TPS from last 5s, 10s, 1m, 5m, 15m:") {
        None => None,
        Some(after) => {
            let start = trimmed_start(after.as_str());
            let body = match without_prefix(start.as_str(), "[⚡]") {
                Some(rest) => trimmed_start(rest.as_str()),
                None => start,
            };
            let cs = chars_of(body.as_str());
            let marker = chars_of("[⚡]");
            assert(cs@.skip(0) == cs@);
            match find(&cs, &marker, 0) {
                Some(end) => {
                    assert(cs@.subrange(0, end as int) == cs@.take(end as int));
                    Some(piece(&cs, 0, end))
                },
                None => Some(body),
            }
        },
    }
}

/// Reads a reply to `spark tps`.
pub fn parse_tps(raw: &str) -> (r: Option<Tps>)
    ensures
        match r {
            Some(t) => tps_of(raw@) == Some(
                (
                    seq![t.last_5s@, t.last_10s@, t.last_1m@, t.last_5m@, t.last_15m@],
                    t.catching_up,
                ),
            ),
            None => tps_of(raw@) is None,
        },
{
    let clean = strip_colors(raw);
    let text = match tps_text(clean.as_str()) {
        None => {
            return None;
        },
        Some(x) => x,
    };
    let found = all_captures(FIGURE, text.as_str());
    let ghost figs = crate::patterns::figures(text@);
    if found.len() < 5 {
        return None;
    }
    let mut catching_up = false;
    let mut i: usize = 0;
    while i < 5
        invariant
            i <= 5,
            figs == crate::patterns::figures(text@),
            5 <= found@.len() == figs.len(),
            forall|k: int|
                0 <= k < found@.len() ==> {
                    &&& (#[trigger] found@[k])@.len() == 3
                    &&& found@[k]@[1]@ == (if figs[k].0 {
                        seq!['*']
                    } else {
                        Seq::empty()
                    })
                    &&& found@[k]@[2]@ == figs[k].1
                },
            forall|k: int| 0 <= k < i ==> plain_numeral((#[trigger] figs[k]).1),
            catching_up == (exists|k: int| 0 <= k < i && (#[trigger] figs[k]).0),
            tps_numbers(crate::patterns::without_color_codes(raw@)) == Some(text@),
        decreases 5 - i,
    {
        let ghost here = figs[i as int];
        assert(found@[i as int]@[1]@.len() == (if here.0 { 1int } else { 0int }));
        if !found[i][1].as_str().is_empty() {
            catching_up = true;
        }
        if !is_plain_numeral(found[i][2].as_str()) {
            return None;
        }
        i += 1;
    }
    Some(
        Tps {
            last_5s: found[0][2].clone(),
            last_10s: found[1][2].clone(),
            last_1m: found[2][2].clone(),
            last_5m: found[3][2].clone(),
            last_15m: found[4][2].clone(),
            catching_up,
        },
    )
}

/// What a reply to `spark tps` says, in general: there must be a part with the
/// numbers, five of them at least, and the first five must be written in ASCII
/// digits; those are the ones that count.
pub proof fn law_a_tps_reply_needs_five_numbers(raw: Seq<char>)
    ensures
        ({
            let text = tps_numbers(crate::patterns::without_color_codes(raw));
            let found = crate::patterns::figures(text.unwrap());
            let plain = forall|i: int, j: int|
                0 <= i < 5 && 0 <= j < (#[trigger] found[i]).1.len() ==> {
                    let c = #[trigger] found[i].1[j];
                    '0' <= c <= '9' || c == '.'
                };
            &&& tps_of(raw) is Some <==> text is Some && found.len() >= 5 && plain
            &&& tps_of(raw) matches Some((numbers, catching_up)) ==> {
                &&& numbers.len() == 5
                &&& forall|i: int| 0 <= i < 5 ==> #[trigger] numbers[i] == found[i].1
                &&& catching_up <==> found[0].0 || found[1].0 || found[2].0 || found[3].0
                    || found[4].0
            }
        }),
{
    let text = tps_numbers(crate::patterns::without_color_codes(raw));
    let found = crate::patterns::figures(text.unwrap());
    let plain = forall|i: int, j: int|
        0 <= i < 5 && 0 <= j < (#[trigger] found[i]).1.len() ==> {
            let c = #[trigger] found[i].1[j];
            '0' <= c <= '9' || c == '.'
        };
    if plain {
        assert forall|i: int| 0 <= i < 5 implies plain_numeral((#[trigger] found[i]).1) by {
            let s = found[i].1;
            assert forall|j: int| 0 <= j < s.len() implies (crate::text::ascii_digit(
                #[trigger] s[j],
            ) || s[j] == '.') by {
                assert(found[i].1[j] == s[j]);
            }
        }
    }
    if tps_of(raw) is Some {
        assert forall|i: int, j: int| 0 <= i < 5 && 0 <= j < (#[trigger] found[i]).1.len() implies {
            let c = #[trigger] found[i].1[j];
            '0' <= c <= '9' || c == '.'
        } by {
            assert(plain_numeral(found[i].1));
            assert(crate::text::ascii_digit(found[i].1[j]) || found[i].1[j] == '.');
        }
        let (numbers, catching_up) = tps_of(raw).unwrap();
        assert forall|i: int| 0 <= i < 5 implies #[trigger] numbers[i] == found[i].1 by {
            assert(i == 0 || i == 1 || i == 2 || i == 3 || i == 4);
        }
        if catching_up {
            let i = choose|i: int| 0 <= i < 5 && (#[trigger] found[i]).0;
            assert(i == 0 || i == 1 || i == 2 || i == 3 || i == 4);
        }
    }
}

/// A number as the server writes it: digits, a point, digits.
pub open spec fn written(whole: Seq<char>, fraction: Seq<char>) -> Seq<char> {
    whole + (seq!['.'] + fraction)
}

/// One or more ASCII digits.
pub open spec fn digits(s: Seq<char>) -> bool {
    s.len() > 0 && forall|i: int| 0 <= i < s.len() ==> '0' <= #[trigger] s[i] <= '9'
}

/// A number with a star before it, or without.
pub open spec fn starred(star: bool, number: Seq<char>) -> Seq<char> {
    if star {
        seq!['*'] + number
    } else {
        number
    }
}

/// The server's reply to `spark tps` is read back: the five numbers under its
/// heading, each as it is written, and whether any of them has a star.
#[verifier::spinoff_prover]
pub proof fn law_tps_round_trip(
    stars: Seq<bool>,
    wholes: Seq<Seq<char>>,
    fractions: Seq<Seq<char>>,
)
    requires
        stars.len() == 5,
        wholes.len() == 5,
        fractions.len() == 5,
        forall|k: int| 0 <= k < 5 ==> digits(#[trigger] wholes[k]),
        forall|k: int| 0 <= k < 5 ==> digits(#[trigger] fractions[k]),
    ensures
        ({
            let n = Seq::new(5, |k: int| written(wholes[k], fractions[k]));
            let raw = "TPS from last 5s, 10s, 1m, 5m, 15m:"@ + (seq![' '] + (starred(stars[0], n[0])
                + (", "@ + (starred(stars[1], n[1]) + (", "@ + (starred(stars[2], n[2]) + (", "@ + (
            starred(stars[3], n[3]) + (", "@ + starred(stars[4], n[4]))))))))));
            tps_of(raw) == Some((n, stars[0] || stars[1] || stars[2] || stars[3] || stars[4]))
        }),
{
    let n = Seq::new(5, |k: int| written(wholes[k], fractions[k]));
    assert forall|k: int| 0 <= k < 5 implies digits(#[trigger] wholes[k]) && digits(
        fractions[k],
    ) by {
        assert(digits(fractions[k]));
    }
    let t4 = starred(stars[4], n[4]);
    let t3 = starred(stars[3], n[3]) + (", "@ + t4);
    let t2 = starred(stars[2], n[2]) + (", "@ + t3);
    let t1 = starred(stars[1], n[1]) + (", "@ + t2);
    let t0 = starred(stars[0], n[0]) + (", "@ + t1);
    lemma_five_figures(stars, wholes, fractions);
    lemma_tps_text(t0);
    lemma_written(wholes[0], fractions[0]);
    lemma_written(wholes[1], fractions[1]);
    lemma_written(wholes[2], fractions[2]);
    lemma_written(wholes[3], fractions[3]);
    lemma_written(wholes[4], fractions[4]);
    lemma_tps_of(
        "TPS from last 5s, 10s, 1m, 5m, 15m:"@ + (seq![' '] + t0),
        t0,
        (stars[0], n[0]),
        (stars[1], n[1]),
        (stars[2], n[2]),
        (stars[3], n[3]),
        (stars[4], n[4]),
    );
    assert(seq![n[0], n[1], n[2], n[3], n[4]] == n);
}

/// The figures in five numbers with commas between them.
#[verifier::spinoff_prover]
proof fn lemma_five_figures(
    stars: Seq<bool>,
    wholes: Seq<Seq<char>>,
    fractions: Seq<Seq<char>>,
)
    requires
        forall|k: int| 0 <= k < 5 ==> digits(#[trigger] wholes[k]) && digits(fractions[k]),
    ensures
        ({
            let n = Seq::new(5, |k: int| written(wholes[k], fractions[k]));
            let t4 = starred(stars[4], n[4]);
            let t3 = starred(stars[3], n[3]) + (", "@ + t4);
            let t2 = starred(stars[2], n[2]) + (", "@ + t3);
            let t1 = starred(stars[1], n[1]) + (", "@ + t2);
            let t0 = starred(stars[0], n[0]) + (", "@ + t1);
            &&& crate::patterns::figures(t0) == seq![(stars[0], n[0])] + (seq![(stars[1], n[1])] + (
            seq![(stars[2], n[2])] + (seq![(stars[3], n[3])] + (seq![(stars[4], n[4])]
                + Seq::empty()))))
            &&& t0.len() > 0
            &&& '0' <= t0[0] <= '9' || t0[0] == '*'
            &&& numeric(t0)
        }),
{
    let n = Seq::new(5, |k: int| written(wholes[k], fractions[k]));
    let t4 = starred(stars[4], n[4]);
    let t3 = starred(stars[3], n[3]) + (", "@ + t4);
    let t2 = starred(stars[2], n[2]) + (", "@ + t3);
    let t1 = starred(stars[1], n[1]) + (", "@ + t2);
    assert(digits(wholes[0]) && digits(wholes[1]) && digits(wholes[2]));
    assert(digits(wholes[3]) && digits(wholes[4]));
    lemma_last_figure(stars[4], wholes[4], fractions[4]);
    lemma_figure_and_comma(stars[3], wholes[3], fractions[3], t4);
    lemma_figure_and_comma(stars[2], wholes[2], fractions[2], t3);
    lemma_figure_and_comma(stars[1], wholes[1], fractions[1], t2);
    lemma_figure_and_comma(stars[0], wholes[0], fractions[0], t1);
}

/// What is read of five figures.
proof fn lemma_tps_of(
    raw: Seq<char>,
    text: Seq<char>,
    a: (bool, Seq<char>),
    b: (bool, Seq<char>),
    c: (bool, Seq<char>),
    d: (bool, Seq<char>),
    e: (bool, Seq<char>),
)
    requires
        tps_numbers(crate::patterns::without_color_codes(raw)) == Some(text),
        crate::patterns::figures(text) == seq![a] + (seq![b] + (seq![c] + (seq![d] + (seq![e]
            + Seq::empty())))),
        plain_numeral(a.1),
        plain_numeral(b.1),
        plain_numeral(c.1),
        plain_numeral(d.1),
        plain_numeral(e.1),
    ensures
        tps_of(raw) == Some((seq![a.1, b.1, c.1, d.1, e.1], a.0 || b.0 || c.0 || d.0 || e.0)),
{
    let found = crate::patterns::figures(text);
    lemma_five(found, a, b, c, d, e);
    assert forall|i: int| 0 <= i < 5 implies plain_numeral((#[trigger] found[i]).1) by {
        assert(i == 0 || i == 1 || i == 2 || i == 3 || i == 4);
    }
    assert(seq![found[0].1, found[1].1, found[2].1, found[3].1, found[4].1] == seq![
        a.1,
        b.1,
        c.1,
        d.1,
        e.1,
    ]);
}

/// A number that nothing follows.
proof fn lemma_last_figure(star: bool, whole: Seq<char>, fraction: Seq<char>)
    requires
        digits(whole),
        digits(fraction),
    ensures
        ({
            let s = starred(star, written(whole, fraction));
            &&& crate::patterns::figures(s) == seq![(star, written(whole, fraction))] + Seq::<
                (bool, Seq<char>),
            >::empty()
            &&& numeric(s)
        }),
{
    let s = starred(star, written(whole, fraction));
    let nothing = Seq::<char>::empty();
    assert(s + nothing == s);
    lemma_figure(star, whole, fraction, nothing);
    assert(crate::patterns::figures(nothing) == Seq::<(bool, Seq<char>)>::empty());
}

/// Five entries, one behind the other.
proof fn lemma_five(
    found: Seq<(bool, Seq<char>)>,
    a: (bool, Seq<char>),
    b: (bool, Seq<char>),
    c: (bool, Seq<char>),
    d: (bool, Seq<char>),
    e: (bool, Seq<char>),
)
    requires
        found == seq![a] + (seq![b] + (seq![c] + (seq![d] + (seq![e] + Seq::empty())))),
    ensures
        found.len() == 5,
        found[0] == a,
        found[1] == b,
        found[2] == c,
        found[3] == d,
        found[4] == e,
        (exists|i: int| 0 <= i < 5 && (#[trigger] found[i]).0) <==> a.0 || b.0 || c.0 || d.0 || e.0,
{
    assert(found[0] == a && found[1] == b && found[2] == c && found[3] == d && found[4] == e);
    if exists|i: int| 0 <= i < 5 && (#[trigger] found[i]).0 {
        let i = choose|i: int| 0 <= i < 5 && (#[trigger] found[i]).0;
        assert(i == 0 || i == 1 || i == 2 || i == 3 || i == 4);
    }
}

/// A marker before the numbers is passed over, with the white space around it,
/// and a marker behind them ends them.
pub proof fn law_markers_frame_the_numbers(body: Seq<char>, rest: Seq<char>)
    requires
        body.len() > 0,
        !crate::text::white(body[0]),
        forall|i: int| 0 <= i < body.len() ==> #[trigger] body[i] != 'T' && body[i] != '[',
        forall|i: int| 0 <= i < rest.len() ==> #[trigger] rest[i] != 'T',
    ensures
        tps_numbers("TPS from last 5s, 10s, 1m, 5m, 15m:"@ + (seq!['\n'] + body)) == Some(body),
        tps_numbers(
            "TPS from last 5s, 10s, 1m, 5m, 15m:"@ + (seq!['\n'] + ("[⚡]"@ + (seq![' '] + body))),
        ) == Some(body),
        tps_numbers(
            "TPS from last 5s, 10s, 1m, 5m, 15m:"@ + (seq!['\n'] + (body + ("[⚡]"@ + rest))),
        ) == Some(body),
{
    reveal_strlit("[⚡]");
    let marker = "[⚡]"@;
    let nothing = Seq::<char>::empty();
    lemma_heading_and_break(body);
    lemma_heading_and_break(marker + (seq![' '] + body));
    lemma_heading_and_break(body + (marker + rest));
    lemma_no_marker(body, nothing);
    assert(body + nothing == body);
    lemma_no_marker(body, marker + rest);
    let spaced = seq![' '] + body;
    crate::text::law_affixes(marker + spaced, marker, spaced);
    assert(spaced.skip(1) == body);
    assert(crate::text::trim_start(spaced) == crate::text::trim_start(body));
    assert(crate::text::trim_start(body) == body);
    let cut = body + (marker + rest);
    assert(crate::text::trim_start(cut) == cut);
    crate::text::lemma_first_occurrence(cut, marker);
    assert(cut.subrange(body.len() as int, body.len() as int + 3) == marker);
    assert(crate::text::occurs_at(cut, marker, body.len() as int));
    let at = crate::text::first_occurrence(cut, marker).unwrap();
    assert(at == body.len());
    assert(cut.take(at) == body);
    crate::text::lemma_first_occurrence(body, marker);
    assert(crate::text::trim_start(marker + spaced) == marker + spaced);
}

/// No marker begins in a text without a bracket, whatever follows it.
proof fn lemma_no_marker(body: Seq<char>, behind: Seq<char>)
    requires
        forall|i: int| 0 <= i < body.len() ==> #[trigger] body[i] != '[',
    ensures
        forall|i: int| i < body.len() ==> !#[trigger] crate::text::occurs_at(
            body + behind,
            "[⚡]"@,
            i,
        ),
        behind.len() == 0 ==> forall|i: int| !#[trigger] crate::text::occurs_at(
            body + behind,
            "[⚡]"@,
            i,
        ),
{
    reveal_strlit("[⚡]");
    let all = body + behind;
    assert forall|i: int| i < body.len() implies !#[trigger] crate::text::occurs_at(
        all,
        "[⚡]"@,
        i,
    ) by {
        if crate::text::occurs_at(all, "[⚡]"@, i) {
            assert(all.subrange(i, i + 3)[0] == all[i]);
            assert(all[i] == body[i]);
        }
    }
}

/// What stands on the lines below the heading.
proof fn lemma_heading_and_break(t: Seq<char>)
    requires
        forall|i: int| 0 <= i < t.len() ==> #[trigger] t[i] != 'T',
    ensures
        ({
            let heading = "TPS from last 5s, 10s, 1m, 5m, 15m:"@;
            let piece = crate::text::second_piece(heading + (seq!['\n'] + t), heading);
            piece == Some(seq!['\n'] + t) && crate::text::trim_start(piece.unwrap())
                == crate::text::trim_start(t)
        }),
{
    let after = seq!['\n'] + t;
    assert forall|i: int| 0 <= i < after.len() implies #[trigger] after[i] != 'T' by {
        if i > 0 {
            assert(after[i] == t[i - 1]);
        }
    }
    lemma_after_heading(after);
    assert(after.skip(1) == t);
}

/// The numbers under the heading are what is searched for figures.
proof fn lemma_tps_text(t0: Seq<char>)
    requires
        t0.len() > 0,
        '0' <= t0[0] <= '9' || t0[0] == '*',
        numeric(t0),
    ensures
        ({
            let raw = "TPS from last 5s, 10s, 1m, 5m, 15m:"@ + (seq![' '] + t0);
            tps_numbers(crate::patterns::without_color_codes(raw)) == Some(t0)
        }),
{
    reveal_strlit("TPS from last 5s, 10s, 1m, 5m, 15m:");
    reveal_strlit("[⚡]");
    let heading = "TPS from last 5s, 10s, 1m, 5m, 15m:"@;
    let marker = "[⚡]"@;
    let after = seq![' '] + t0;
    let raw = heading + after;
    assert forall|i: int| 0 <= i < after.len() implies numeric_char(#[trigger] after[i]) by {
        if i > 0 {
            assert(after[i] == t0[i - 1]);
        }
    }
    assert forall|i: int| 0 <= i < raw.len() implies #[trigger] raw[i] != '§' by {
        if i >= heading.len() {
            assert(raw[i] == after[i - heading.len()]);
        }
    }
    crate::patterns::lemma_no_colour_codes(raw);
    assert forall|i: int| 0 <= i < after.len() implies #[trigger] after[i] != 'T' by {
        assert(numeric_char(after[i]));
    }
    lemma_after_heading(after);
    assert(after.skip(1) == t0);
    assert(crate::text::trim_start(after) == crate::text::trim_start(t0));
    assert(crate::text::trim_start(t0) == t0);
    crate::text::lemma_first_occurrence(t0, marker);
    assert forall|i: int| !crate::text::occurs_at(t0, marker, i) by {
        if crate::text::occurs_at(t0, marker, i) {
            assert(t0.subrange(i, i + 3)[0] == t0[i]);
            assert(numeric_char(t0[i]));
        }
    }
}

/// The characters of the five numbers and of what parts them.
spec fn numeric_char(c: char) -> bool {
    '0' <= c <= '9' || c == '.' || c == ',' || c == ' ' || c == '*'
}

spec fn numeric(s: Seq<char>) -> bool {
    forall|i: int| 0 <= i < s.len() ==> numeric_char(#[trigger] s[i])
}

proof fn lemma_written(whole: Seq<char>, fraction: Seq<char>)
    requires
        digits(whole),
        digits(fraction),
    ensures
        plain_numeral(written(whole, fraction)),
{
    let n = written(whole, fraction);
    assert forall|i: int| 0 <= i < n.len() implies (crate::text::ascii_digit(#[trigger] n[i])
        || n[i] == '.') by {
        if i < whole.len() {
            assert(n[i] == whole[i]);
        } else if i > whole.len() {
            assert(n[i] == fraction[i - whole.len() - 1]);
        }
    }
}

/// A number at the start of a text is the first that is found.
proof fn lemma_figure(star: bool, whole: Seq<char>, fraction: Seq<char>, rest: Seq<char>)
    requires
        digits(whole),
        digits(fraction),
        rest.len() > 0 ==> rest[0] == ',',
        numeric(rest),
    ensures
        ({
            let s = starred(star, written(whole, fraction)) + rest;
            &&& crate::patterns::figures(s) == seq![(star, written(whole, fraction))]
                + crate::patterns::figures(rest)
            &&& s.len() > 0
            &&& '0' <= s[0] <= '9' || s[0] == '*'
            &&& numeric(s)
        }),
{
    let n = written(whole, fraction);
    let s = starred(star, n) + rest;
    let tail = n + rest;
    let behind = seq!['.'] + fraction + rest;
    assert('0' <= whole[0] <= '9');
    assert(n[0] == whole[0]);
    if star {
        assert(s[0] == '*');
        assert(s.skip(1) == tail);
    } else {
        assert(s == tail);
        assert(s[0] == whole[0]);
    }
    assert(tail == whole + behind);
    crate::patterns::lemma_digit_run_front(whole, behind);
    assert(tail.skip(whole.len() as int) == behind);
    assert(behind.skip(1) == fraction + rest);
    crate::patterns::lemma_digit_run_front(fraction, rest);
    assert(whole + seq!['.'] + fraction == n);
    assert(crate::patterns::number_at_start(tail) == n);
    assert(tail.skip(n.len() as int) == rest);
    lemma_written(whole, fraction);
    assert forall|i: int| 0 <= i < s.len() implies numeric_char(#[trigger] s[i]) by {
        let k = s.len() - tail.len();
        if i >= k {
            assert(s[i] == tail[i - k]);
            if i - k < n.len() {
                assert(tail[i - k] == n[i - k]);
            } else {
                assert(tail[i - k] == rest[i - k - n.len()]);
            }
        }
    }
}

/// A number with a comma and more behind it.
proof fn lemma_figure_and_comma(
    star: bool,
    whole: Seq<char>,
    fraction: Seq<char>,
    more: Seq<char>,
)
    requires
        digits(whole),
        digits(fraction),
        numeric(more),
    ensures
        ({
            let s = starred(star, written(whole, fraction)) + (", "@ + more);
            &&& crate::patterns::figures(s) == seq![(star, written(whole, fraction))]
                + crate::patterns::figures(more)
            &&& s.len() > 0
            &&& '0' <= s[0] <= '9' || s[0] == '*'
            &&& numeric(s)
        }),
{
    reveal_strlit(", ");
    let rest = ", "@ + more;
    let spaced = seq![' '] + more;
    assert forall|i: int| 0 <= i < rest.len() implies numeric_char(#[trigger] rest[i]) by {
        if i >= 2 {
            assert(rest[i] == more[i - 2]);
        }
    }
    lemma_figure(star, whole, fraction, rest);
    assert(rest.skip(1) == spaced);
    assert(spaced.skip(1) == more);
    crate::patterns::lemma_ascii_digit(',');
    crate::patterns::lemma_ascii_digit(' ');
    assert(rest[0] == ',' && spaced[0] == ' ');
    assert(crate::patterns::digit_run(rest).len() == 0);
    assert(crate::patterns::digit_run(spaced).len() == 0);
    assert(crate::patterns::figures(rest) == crate::patterns::figures(spaced));
    assert(crate::patterns::figures(spaced) == crate::patterns::figures(more));
}

/// What stands under the heading, up to the end.
proof fn lemma_after_heading(after: Seq<char>)
    requires
        forall|i: int| 0 <= i < after.len() ==> #[trigger] after[i] != 'T',
    ensures
        crate::text::second_piece(
            "TPS from last 5s, 10s, 1m, 5m, 15m:"@ + after,
            "TPS from last 5s, 10s, 1m, 5m, 15m:"@,
        ) == Some(after),
{
    reveal_strlit("TPS from last 5s, 10s, 1m, 5m, 15m:");
    let heading = "TPS from last 5s, 10s, 1m, 5m, 15m:"@;
    let raw = heading + after;
    assert(raw.take(heading.len() as int) == heading);
    assert(crate::text::first_occurrence(raw, heading) == Some(0int));
    assert(raw.skip(heading.len() as int) == after);
    crate::text::lemma_first_occurrence(after, heading);
    if crate::text::contains(after, heading) {
        let i = choose|i: int| crate::text::occurs_at(after, heading, i);
        assert(after.subrange(i, i + heading.len())[0] == after[i]);
    }
}

} // verus!
