//! The regular expressions that the server's replies and logs are read with,
//! and the searches over them.
//!
//! The searches are done by the `regex` crate. Each search is stated here for
//! the patterns that it is used with, over spec functions that say what those
//! patterns mean.

use regex::Regex;
use vstd::prelude::*;

verus! {

/// A Minecraft colour code.
pub const COLOR_CODE: &'static str = "§[0-9a-fk-or]";

/// The reply to `list`.
pub const LIST_REPLY: &'static str = r"There are (\d+) of a max of (\d+) players online:?\s*(.*)";

/// A number in the reply to `spark tps`, with a star while the server is
/// catching up.
pub const FIGURE: &'static str = r"(\*?)(\d+(?:\.\d+)?)";

/// A log line about an advancement, a challenge or a goal.
pub const DEED_LINE: &'static str = r"^\[\d{2}:\d{2}:\d{2}\] \[Server thread/INFO\]: ([A-Za-z0-9_]{1,16}) has (made the advancement|completed the challenge|reached the goal) \[(.+)\]$";

// ---------------------------------------------------------------------------
// What the patterns mean
// ---------------------------------------------------------------------------

/// What `\d` matches: the Unicode decimal digits.
#[verifier::opaque]
pub open spec fn decimal_digit(c: char) -> bool {
    let u = c as u32;
    ||| 0x30 <= u <= 0x39
    ||| 0x660 <= u <= 0x669
    ||| 0x6F0 <= u <= 0x6F9
    ||| 0x7C0 <= u <= 0x7C9
    ||| 0x966 <= u <= 0x96F
    ||| 0x9E6 <= u <= 0x9EF
    ||| 0xA66 <= u <= 0xA6F
    ||| 0xAE6 <= u <= 0xAEF
    ||| 0xB66 <= u <= 0xB6F
    ||| 0xBE6 <= u <= 0xBEF
    ||| 0xC66 <= u <= 0xC6F
    ||| 0xCE6 <= u <= 0xCEF
    ||| 0xD66 <= u <= 0xD6F
    ||| 0xDE6 <= u <= 0xDEF
    ||| 0xE50 <= u <= 0xE59
    ||| 0xED0 <= u <= 0xED9
    ||| 0xF20 <= u <= 0xF29
    ||| 0x1040 <= u <= 0x1049
    ||| 0x1090 <= u <= 0x1099
    ||| 0x17E0 <= u <= 0x17E9
    ||| 0x1810 <= u <= 0x1819
    ||| 0x1946 <= u <= 0x194F
    ||| 0x19D0 <= u <= 0x19D9
    ||| 0x1A80 <= u <= 0x1A89
    ||| 0x1A90 <= u <= 0x1A99
    ||| 0x1B50 <= u <= 0x1B59
    ||| 0x1BB0 <= u <= 0x1BB9
    ||| 0x1C40 <= u <= 0x1C49
    ||| 0x1C50 <= u <= 0x1C59
    ||| 0xA620 <= u <= 0xA629
    ||| 0xA8D0 <= u <= 0xA8D9
    ||| 0xA900 <= u <= 0xA909
    ||| 0xA9D0 <= u <= 0xA9D9
    ||| 0xA9F0 <= u <= 0xA9F9
    ||| 0xAA50 <= u <= 0xAA59
    ||| 0xABF0 <= u <= 0xABF9
    ||| 0xFF10 <= u <= 0xFF19
    ||| 0x104A0 <= u <= 0x104A9
    ||| 0x10D30 <= u <= 0x10D39
    ||| 0x10D40 <= u <= 0x10D49
    ||| 0x11066 <= u <= 0x1106F
    ||| 0x110F0 <= u <= 0x110F9
    ||| 0x11136 <= u <= 0x1113F
    ||| 0x111D0 <= u <= 0x111D9
    ||| 0x112F0 <= u <= 0x112F9
    ||| 0x11450 <= u <= 0x11459
    ||| 0x114D0 <= u <= 0x114D9
    ||| 0x11650 <= u <= 0x11659
    ||| 0x116C0 <= u <= 0x116C9
    ||| 0x116D0 <= u <= 0x116E3
    ||| 0x11730 <= u <= 0x11739
    ||| 0x118E0 <= u <= 0x118E9
    ||| 0x11950 <= u <= 0x11959
    ||| 0x11BF0 <= u <= 0x11BF9
    ||| 0x11C50 <= u <= 0x11C59
    ||| 0x11D50 <= u <= 0x11D59
    ||| 0x11DA0 <= u <= 0x11DA9
    ||| 0x11F50 <= u <= 0x11F59
    ||| 0x16130 <= u <= 0x16139
    ||| 0x16A60 <= u <= 0x16A69
    ||| 0x16AC0 <= u <= 0x16AC9
    ||| 0x16B50 <= u <= 0x16B59
    ||| 0x16D70 <= u <= 0x16D79
    ||| 0x1CCF0 <= u <= 0x1CCF9
    ||| 0x1D7CE <= u <= 0x1D7FF
    ||| 0x1E140 <= u <= 0x1E149
    ||| 0x1E2F0 <= u <= 0x1E2F9
    ||| 0x1E4F0 <= u <= 0x1E4F9
    ||| 0x1E5F1 <= u <= 0x1E5FA
    ||| 0x1E950 <= u <= 0x1E959
    ||| 0x1FBF0 <= u <= 0x1FBF9
}

/// What `[0-9a-fk-or]` matches.
pub open spec fn color_letter(c: char) -> bool {
    '0' <= c <= '9' || 'a' <= c <= 'f' || 'k' <= c <= 'o' || c == 'r'
}

/// `s` without its colour codes.
pub open spec fn without_color_codes(s: Seq<char>) -> Seq<char>
    decreases s.len(),
{
    if s.len() == 0 {
        s
    } else if s.len() >= 2 && s[0] == '§' && color_letter(s[1]) {
        without_color_codes(s.skip(2))
    } else {
        seq![s[0]] + without_color_codes(s.skip(1))
    }
}

/// What goes with the colour codes: the sign and one of its letters, wherever
/// they stand; any other character stays.
pub proof fn law_colour_codes(c: char, s: Seq<char>)
    ensures
        ('0' <= c <= '9' || 'a' <= c <= 'f' || 'k' <= c <= 'o' || c == 'r') ==> without_color_codes(
            seq!['§', c] + s,
        ) == without_color_codes(s),
        c != '§' ==> without_color_codes(seq![c] + s) == seq![c] + without_color_codes(s),
        without_color_codes(Seq::empty()).len() == 0,
{
    assert((seq!['§', c] + s).skip(2) == s);
    assert((seq![c] + s).skip(1) == s);
}

/// Text without the sign of a colour code passes unchanged.
pub proof fn lemma_no_colour_codes(s: Seq<char>)
    requires
        forall|i: int| 0 <= i < s.len() ==> #[trigger] s[i] != '§',
    ensures
        without_color_codes(s) == s,
    decreases s.len(),
{
    if s.len() > 0 {
        let t = s.skip(1);
        assert forall|i: int| 0 <= i < t.len() implies #[trigger] t[i] != '§' by {
            assert(t[i] == s[i + 1]);
        }
        lemma_no_colour_codes(t);
        assert(s[0] != '§');
        assert(seq![s[0]] + t == s);
    }
}

/// The decimal digits at the start of `s`.
pub open spec fn digit_run(s: Seq<char>) -> Seq<char>
    decreases s.len(),
{
    if s.len() > 0 && decimal_digit(s[0]) {
        seq![s[0]] + digit_run(s.skip(1))
    } else {
        Seq::empty()
    }
}

/// A run of ASCII digits ends where something else follows.
pub proof fn lemma_digit_run_front(d: Seq<char>, t: Seq<char>)
    requires
        forall|i: int| 0 <= i < d.len() ==> '0' <= #[trigger] d[i] <= '9',
        t.len() > 0 ==> t[0] as u32 <= 0x7F && !('0' <= t[0] <= '9'),
    ensures
        digit_run(d + t) == d,
    decreases d.len(),
{
    let all = d + t;
    if d.len() == 0 {
        if t.len() > 0 {
            assert(all[0] == t[0]);
            lemma_ascii_digit(t[0]);
        }
    } else {
        assert('0' <= d[0] <= '9');
        assert(all[0] == d[0]);
        lemma_ascii_digit(d[0]);
        let rest = d.skip(1);
        assert forall|i: int| 0 <= i < rest.len() implies '0' <= #[trigger] rest[i] <= '9' by {
            assert(rest[i] == d[i + 1]);
        }
        lemma_digit_run_front(rest, t);
        assert(all.skip(1) == rest + t);
        assert(seq![d[0]] + rest == d);
    }
}

/// Of the ASCII characters only the ten digits are decimal digits.
pub proof fn lemma_ascii_digit(c: char)
    requires
        c as u32 <= 0x7F,
    ensures
        decimal_digit(c) <==> '0' <= c <= '9',
{
    reveal(decimal_digit);
}

/// The groups of `LIST_REPLY` at the start of `s`: players online, the most
/// there can be, and the rest of the line, white space before it left out.
pub open spec fn list_reply_at_start(s: Seq<char>) -> Option<(Seq<char>, Seq<char>, Seq<char>)> {
    match crate::text::strip_prefix(s, "There are "@) {
        None => None,
        Some(s1) => {
            let online = digit_run(s1);
            match crate::text::strip_prefix(s1.skip(online.len() as int), " of a max of "@) {
                None => None,
                Some(s2) => {
                    let max = digit_run(s2);
                    match crate::text::strip_prefix(s2.skip(max.len() as int), " players online"@) {
                        None => None,
                        Some(s3) => {
                            let s4 = if s3.len() > 0 && s3[0] == ':' {
                                s3.skip(1)
                            } else {
                                s3
                            };
                            let s5 = crate::text::trim_start(s4);
                            if online.len() > 0 && max.len() > 0 {
                                Some((online, max, s5.take(crate::text::index_of(s5, '\n'))))
                            } else {
                                None
                            }
                        },
                    }
                },
            }
        },
    }
}

/// The groups of the leftmost match of `LIST_REPLY` in `s`.
pub open spec fn list_reply(s: Seq<char>) -> Option<(Seq<char>, Seq<char>, Seq<char>)>
    decreases s.len(),
{
    if list_reply_at_start(s) is Some {
        list_reply_at_start(s)
    } else if s.len() == 0 {
        None
    } else {
        list_reply(s.skip(1))
    }
}

/// The number at the start of `s`: digits, and a fraction if one follows.
pub open spec fn number_at_start(s: Seq<char>) -> Seq<char> {
    let whole = digit_run(s);
    let rest = s.skip(whole.len() as int);
    if rest.len() > 0 && rest[0] == '.' && digit_run(rest.skip(1)).len() > 0 {
        whole + seq!['.'] + digit_run(rest.skip(1))
    } else {
        whole
    }
}

/// The matches of `FIGURE` in `s`, from the left: whether each is starred,
/// and its number.
pub open spec fn figures(s: Seq<char>) -> Seq<(bool, Seq<char>)>
    decreases s.len(),
{
    if s.len() == 0 {
        Seq::empty()
    } else {
        let starred = s[0] == '*';
        let tail = if starred {
            s.skip(1)
        } else {
            s
        };
        if digit_run(tail).len() == 0 {
            figures(s.skip(1))
        } else {
            let number = number_at_start(tail);
            proof {
                lemma_number_at_start(tail);
            }
            seq![(starred, number)] + figures(tail.skip(number.len() as int))
        }
    }
}

proof fn lemma_digit_run(s: Seq<char>)
    ensures
        digit_run(s).len() <= s.len(),
    decreases s.len(),
{
    if s.len() > 0 && decimal_digit(s[0]) {
        lemma_digit_run(s.skip(1));
    }
}

pub proof fn lemma_number_at_start(s: Seq<char>)
    ensures
        digit_run(s).len() <= number_at_start(s).len() <= s.len(),
{
    lemma_digit_run(s);
    let rest = s.skip(digit_run(s).len() as int);
    if rest.len() > 0 {
        lemma_digit_run(rest.skip(1));
    }
}

/// A time stamp such as `[12:34:56]`.
pub open spec fn time_stamp(s: Seq<char>) -> bool {
    &&& s.len() == 10
    &&& s[0] == '[' && s[3] == ':' && s[6] == ':' && s[9] == ']'
    &&& decimal_digit(s[1]) && decimal_digit(s[2])
    &&& decimal_digit(s[4]) && decimal_digit(s[5])
    &&& decimal_digit(s[7]) && decimal_digit(s[8])
}

/// A Minecraft user name: 1 to 16 ASCII letters, digits and underscores.
pub open spec fn username(s: Seq<char>) -> bool {
    &&& 1 <= s.len() <= 16
    &&& forall|i: int|
        0 <= i < s.len() ==> (crate::text::ascii_alphanumeric(#[trigger] s[i]) || s[i] == '_')
}

/// Which names are user names: up to sixteen characters, each a letter, a
/// digit or an underscore.
pub proof fn law_user_names(s: Seq<char>)
    ensures
        username(s) <==> {
            &&& 1 <= s.len() <= 16
            &&& forall|i: int|
                0 <= i < s.len() ==> {
                    let c = #[trigger] s[i];
                    'a' <= c <= 'z' || 'A' <= c <= 'Z' || '0' <= c <= '9' || c == '_'
                }
        },
{
}

/// Every time of day, written in ASCII digits, makes a time stamp.
pub proof fn law_time_stamps(h: Seq<char>, m: Seq<char>, s: Seq<char>)
    requires
        h.len() == 2 && m.len() == 2 && s.len() == 2,
        forall|i: int| 0 <= i < 2 ==> '0' <= #[trigger] h[i] <= '9',
        forall|i: int| 0 <= i < 2 ==> '0' <= #[trigger] m[i] <= '9',
        forall|i: int| 0 <= i < 2 ==> '0' <= #[trigger] s[i] <= '9',
    ensures
        time_stamp(seq!['['] + h + seq![':'] + m + seq![':'] + s + seq![']']),
{
    reveal(decimal_digit);
    assert('0' <= h[0] <= '9' && '0' <= h[1] <= '9');
    assert('0' <= m[0] <= '9' && '0' <= m[1] <= '9');
    assert('0' <= s[0] <= '9' && '0' <= s[1] <= '9');
}

/// The three ways in which a log line tells of a deed.
pub open spec fn deed_phrase(phrase: Seq<char>) -> bool {
    ||| phrase == "made the advancement"@
    ||| phrase == "completed the challenge"@
    ||| phrase == "reached the goal"@
}

/// `line` matches `DEED_LINE` with these groups.
pub open spec fn deed_line(
    line: Seq<char>,
    player: Seq<char>,
    phrase: Seq<char>,
    name: Seq<char>,
) -> bool {
    &&& line.len() >= 10
    &&& time_stamp(line.take(10))
    &&& line.skip(10) == " [Server thread/INFO]: "@ + player + " has "@ + phrase + " ["@ + name
        + "]"@
    &&& username(player)
    &&& deed_phrase(phrase)
    &&& name.len() > 0
    &&& !name.contains('\n')
}

// ---------------------------------------------------------------------------
// The searches
// ---------------------------------------------------------------------------

/// `Regex::replace_all` with an empty replacement. With `COLOR_CODE` it takes
/// out every colour code, from the left, and leaves the rest as it is.
#[verifier::external_body]
pub(crate) fn erase_matches(pattern: &str, text: &str) -> (r: String)
    requires
        pattern@ == COLOR_CODE@,
    ensures
        r@ == without_color_codes(text@),
{
    Regex::new(pattern).unwrap().replace_all(text, "").into_owned()
}

/// `Regex::captures`: the groups of the leftmost match, the whole match
/// first. With `DEED_LINE`, which is anchored at both ends, there is a match
/// exactly if the text is such a line; with `LIST_REPLY`, exactly if such a
/// reply stands somewhere in the text.
#[verifier::external_body]
pub(crate) fn first_captures(pattern: &str, text: &str) -> (r: Option<Vec<String>>)
    requires
        pattern@ == DEED_LINE@ || pattern@ == LIST_REPLY@,
    ensures
        pattern@ == DEED_LINE@ ==> match r {
            Some(g) => g@.len() == 4 && deed_line(text@, g@[1]@, g@[2]@, g@[3]@),
            None => forall|player: Seq<char>, phrase: Seq<char>, name: Seq<char>|
                !deed_line(text@, player, phrase, name),
        },
        pattern@ == LIST_REPLY@ ==> match r {
            Some(g) => g@.len() == 4 && list_reply(text@) == Some((g@[1]@, g@[2]@, g@[3]@)),
            None => list_reply(text@) is None,
        },
{
    let groups = |c: regex::Captures<'_>| {
        c.iter().map(|g| g.map_or(String::new(), |m| m.as_str().to_string())).collect()
    };
    Regex::new(pattern).unwrap().captures(text).map(groups)
}

/// `Regex::captures_iter`: the groups of every match, from the left, the
/// whole match first. With `FIGURE` these are the numbers in the text, the
/// first group being the star or empty.
#[verifier::external_body]
pub(crate) fn all_captures(pattern: &str, text: &str) -> (r: Vec<Vec<String>>)
    requires
        pattern@ == FIGURE@,
    ensures
        r@.len() == figures(text@).len(),
        forall|i: int|
            0 <= i < r@.len() ==> {
                &&& (#[trigger] r@[i])@.len() == 3
                &&& r@[i]@[1]@ == (if figures(text@)[i].0 {
                    seq!['*']
                } else {
                    Seq::empty()
                })
                &&& r@[i]@[2]@ == figures(text@)[i].1
            },
{
    let groups = |c: regex::Captures<'_>| {
        c.iter().map(|g| g.map_or(String::new(), |m| m.as_str().to_string())).collect()
    };
    Regex::new(pattern).unwrap().captures_iter(text).map(groups).collect()
}

} // verus!
