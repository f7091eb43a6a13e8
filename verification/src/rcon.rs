//! Commands over RCON: the text that goes on the wire, and when to reconnect.

use vstd::prelude::*;
use crate::text::chars_of;

verus! {

// ---------------------------------------------------------------------------
// Folding to ASCII
// ---------------------------------------------------------------------------

pub open spec fn ascii(c: char) -> bool {
    c as u32 <= 0x7F
}

/// The ASCII character that stands in for an accented letter or a Spanish
/// punctuation mark; any other character stands for itself.
pub open spec fn plain(c: char) -> char {
    match c {
        'á' | 'à' | 'ä' | 'â' => 'a',
        'é' | 'è' | 'ë' | 'ê' => 'e',
        'í' | 'ì' | 'ï' | 'î' => 'i',
        'ó' | 'ò' | 'ö' | 'ô' => 'o',
        'ú' | 'ù' | 'ü' | 'û' => 'u',
        'ñ' => 'n',
        'Á' | 'À' | 'Ä' | 'Â' => 'A',
        'É' | 'È' | 'Ë' | 'Ê' => 'E',
        'Í' | 'Ì' | 'Ï' | 'Î' => 'I',
        'Ó' | 'Ò' | 'Ö' | 'Ô' => 'O',
        'Ú' | 'Ù' | 'Ü' | 'Û' => 'U',
        'Ñ' => 'N',
        'ç' => 'c',
        'Ç' => 'C',
        '¡' | '¿' => ' ',
        '«' | '»' => '"',
        '—' | '–' => '-',
        '…' => '.',
        _ => c,
    }
}

/// The text in ASCII: every character replaced by its stand-in, and left out
/// if that is not ASCII either.
pub open spec fn folded(s: Seq<char>) -> Seq<char>
    decreases s.len(),
{
    if s.len() == 0 {
        Seq::empty()
    } else if ascii(plain(s.last())) {
        folded(s.drop_last()).push(plain(s.last()))
    } else {
        folded(s.drop_last())
    }
}

fn stand_in(c: char) -> (r: char)
    ensures
        r == plain(c),
{
    match c {
        'á' | 'à' | 'ä' | 'â' => 'a',
        'é' | 'è' | 'ë' | 'ê' => 'e',
        'í' | 'ì' | 'ï' | 'î' => 'i',
        'ó' | 'ò' | 'ö' | 'ô' => 'o',
        'ú' | 'ù' | 'ü' | 'û' => 'u',
        'ñ' => 'n',
        'Á' | 'À' | 'Ä' | 'Â' => 'A',
        'É' | 'È' | 'Ë' | 'Ê' => 'E',
        'Í' | 'Ì' | 'Ï' | 'Î' => 'I',
        'Ó' | 'Ò' | 'Ö' | 'Ô' => 'O',
        'Ú' | 'Ù' | 'Ü' | 'Û' => 'U',
        'Ñ' => 'N',
        'ç' => 'c',
        'Ç' => 'C',
        '¡' | '¿' => ' ',
        '«' | '»' => '"',
        '—' | '–' => '-',
        '…' => '.',
        _ => c,
    }
}

/// Folds text down to ASCII for the RCON wire, which takes nothing else.
pub fn ascii_fold(s: &str) -> (r: String)
    ensures
        r@ == folded(s@),
{
    let cs = chars_of(s);
    let mut out = String::new();
    assert(cs@.take(0) == Seq::<char>::empty());
    for i in 0..cs.len()
        invariant
            out@ == folded(cs@.take(i as int)),
    {
        let c = stand_in(cs[i]);
        proof {
            let next = cs@.take(i + 1);
            assert(next.drop_last() == cs@.take(i as int));
            assert(next.last() == cs@[i as int]);
        }
        if c as u32 <= 0x7F {
            out.push(c);
        }
    }
    assert(cs@.take(cs@.len() as int) == cs@);
    out
}

/// Folded text is ASCII throughout.
pub proof fn law_folded_text_is_ascii(s: Seq<char>)
    ensures
        forall|i: int| 0 <= i < folded(s).len() ==> ascii(#[trigger] folded(s)[i]),
    decreases s.len(),
{
    if s.len() > 0 {
        law_folded_text_is_ascii(s.drop_last());
        let before = folded(s.drop_last());
        assert forall|i: int| 0 <= i < folded(s).len() implies ascii(#[trigger] folded(s)[i]) by {
            if i < before.len() {
                assert(folded(s)[i] == before[i]);
            }
        }
    }
}

/// Text that is ASCII already passes unchanged.
pub proof fn law_ascii_text_is_unchanged(s: Seq<char>)
    requires
        forall|i: int| 0 <= i < s.len() ==> ascii(#[trigger] s[i]),
    ensures
        folded(s) == s,
    decreases s.len(),
{
    if s.len() > 0 {
        assert forall|i: int| 0 <= i < s.drop_last().len() implies ascii(
            #[trigger] s.drop_last()[i],
        ) by {
            assert(ascii(s[i]));
        }
        law_ascii_text_is_unchanged(s.drop_last());
        assert(ascii(s[s.len() - 1]));
        assert(s.drop_last().push(s.last()) == s);
    }
}

/// Folding twice is folding once.
pub proof fn law_folding_is_idempotent(s: Seq<char>)
    ensures
        folded(folded(s)) == folded(s),
{
    law_folded_text_is_ascii(s);
    law_ascii_text_is_unchanged(folded(s));
}

/// Text folds piece by piece, so that a glyph that is left out takes nothing
/// of its surroundings with it.
pub proof fn law_folding_goes_piece_by_piece(a: Seq<char>, b: Seq<char>)
    ensures
        folded(a + b) == folded(a) + folded(b),
    decreases b.len(),
{
    if b.len() == 0 {
        assert(a + b == a);
        assert(folded(a) + folded(b) == folded(a));
    } else {
        law_folding_goes_piece_by_piece(a, b.drop_last());
        assert((a + b).drop_last() == a + b.drop_last());
        assert((a + b).last() == b.last());
        assert(folded(a + b) == folded(a) + folded(b));
    }
}

/// Every accented letter and every mark in the list is replaced by its own
/// stand-in.
#[verifier::spinoff_prover]
pub proof fn law_every_letter_has_its_stand_in(k: int)
    requires
        0 <= k < "áàäâéèëêíìïîóòöôúùüûñÁÀÄÂÉÈËÊÍÌÏÎÓÒÖÔÚÙÜÛÑçÇ¡¿«»—–…"@.len(),
    ensures
        ({
            let letters = "áàäâéèëêíìïîóòöôúùüûñÁÀÄÂÉÈËÊÍÌÏÎÓÒÖÔÚÙÜÛÑçÇ¡¿«»—–…"@;
            let stand_ins = "aaaaeeeeiiiioooouuuunAAAAEEEEIIIIOOOOUUUUNcC  \"\"--."@;
            letters.len() == stand_ins.len() && folded(seq![letters[k]]) == seq![stand_ins[k]]
        }),
{
    reveal_strlit("áàäâéèëêíìïîóòöôúùüûñÁÀÄÂÉÈËÊÍÌÏÎÓÒÖÔÚÙÜÛÑçÇ¡¿«»—–…");
    reveal_strlit("aaaaeeeeiiiioooouuuunAAAAEEEEIIIIOOOOUUUUNcC  \"\"--.");
    let c = "áàäâéèëêíìïîóòöôúùüûñÁÀÄÂÉÈËÊÍÌÏÎÓÒÖÔÚÙÜÛÑçÇ¡¿«»—–…"@[k];
    assert(plain(c) == "aaaaeeeeiiiioooouuuunAAAAEEEEIIIIOOOOUUUUNcC  \"\"--."@[k]);
    lemma_fold_one(c);
}

/// Any other character that is not ASCII is left out.
#[verifier::spinoff_prover]
pub proof fn law_other_characters_are_left_out(c: char)
    requires
        c as u32 > 0x7F,
        !"áàäâéèëêíìïîóòöôúùüûñÁÀÄÂÉÈËÊÍÌÏÎÓÒÖÔÚÙÜÛÑçÇ¡¿«»—–…"@.contains(c),
    ensures
        folded(seq![c]).len() == 0,
{
    reveal_strlit("áàäâéèëêíìïîóòöôúùüûñÁÀÄÂÉÈËÊÍÌÏÎÓÒÖÔÚÙÜÛÑçÇ¡¿«»—–…");
    let f = "áàäâéèëêíìïîóòöôúùüûñÁÀÄÂÉÈËÊÍÌÏÎÓÒÖÔÚÙÜÛÑçÇ¡¿«»—–…"@;
    lemma_fold_one(c);
    if plain(c) != c {
        assert(f[0] != c && f[1] != c && f[2] != c && f[3] != c && f[4] != c && f[5] != c);
        assert(f[6] != c && f[7] != c && f[8] != c && f[9] != c && f[10] != c && f[11] != c);
        assert(f[12] != c && f[13] != c && f[14] != c && f[15] != c && f[16] != c && f[17] != c);
        assert(f[18] != c && f[19] != c && f[20] != c && f[21] != c && f[22] != c && f[23] != c);
        assert(f[24] != c && f[25] != c && f[26] != c && f[27] != c && f[28] != c && f[29] != c);
        assert(f[30] != c && f[31] != c && f[32] != c && f[33] != c && f[34] != c && f[35] != c);
        assert(f[36] != c && f[37] != c && f[38] != c && f[39] != c && f[40] != c && f[41] != c);
        assert(f[42] != c && f[43] != c && f[44] != c && f[45] != c && f[46] != c && f[47] != c);
        assert(f[48] != c && f[49] != c && f[50] != c);
    }
}

proof fn lemma_fold_one(c: char)
    ensures
        ascii(plain(c)) ==> folded(seq![c]) == seq![plain(c)],
        !ascii(plain(c)) ==> folded(seq![c]).len() == 0,
{
    let s = seq![c];
    assert(s.drop_last() == Seq::<char>::empty());
    assert(folded(s.drop_last()) == Seq::<char>::empty());
    assert(s.last() == c);
}

// ---------------------------------------------------------------------------
// One reconnect
// ---------------------------------------------------------------------------

/// Where the delivery of one command stands. A connection that died with the
/// server looks the same as a server that is down, so a command that fails is
/// sent once more over a new connection.
#[derive(Debug, Clone, Copy, PartialEq, Eq, Structural)]
pub enum Delivery {
    /// A connection has to be made; `again` after a first failure.
    Connect { again: bool },
    /// The command has to be sent.
    Send { again: bool },
    Answered,
    Unreachable,
    Refused,
}

/// The first step of a delivery.
pub open spec fn opening(connected: bool) -> Delivery {
    if connected {
        Delivery::Send { again: false }
    } else {
        Delivery::Connect { again: false }
    }
}

/// The step after an outside step went well or did not.
pub open spec fn following(d: Delivery, ok: bool) -> Delivery {
    match d {
        Delivery::Connect { again } => if ok {
            Delivery::Send { again }
        } else {
            Delivery::Unreachable
        },
        Delivery::Send { again } => if ok {
            Delivery::Answered
        } else if again {
            Delivery::Refused
        } else {
            Delivery::Connect { again: true }
        },
        _ => d,
    }
}

impl Delivery {
    pub fn begin(connected: bool) -> (d: Delivery)
        ensures
            d == opening(connected),
    {
        if connected {
            Delivery::Send { again: false }
        } else {
            Delivery::Connect { again: false }
        }
    }

    pub fn next(self, ok: bool) -> (d: Delivery)
        ensures
            d == following(self, ok),
    {
        match self {
            Delivery::Connect { again } => if ok {
                Delivery::Send { again }
            } else {
                Delivery::Unreachable
            },
            Delivery::Send { again } => if ok {
                Delivery::Answered
            } else if again {
                Delivery::Refused
            } else {
                Delivery::Connect { again: true }
            },
            _ => self,
        }
    }
}

/// How a delivery goes on: a command is answered when it is sent well; one that
/// fails is sent once more, over a new connection, and is refused if it fails
/// again; and without a connection the server is out of reach. What is over
/// stays as it is.
pub proof fn law_how_a_delivery_goes_on(d: Delivery, ok: bool, connected: bool, again: bool)
    ensures
        opening(connected) == (Delivery::Send { again: false }) <==> connected,
        opening(connected) == (Delivery::Connect { again: false }) <==> !connected,
        following(d, ok) is Answered <==> d is Answered || (d is Send && ok),
        following(d, ok) is Unreachable <==> d is Unreachable || (d is Connect && !ok),
        following(d, ok) is Refused <==> d is Refused || (d == (Delivery::Send { again: true })
            && !ok),
        following(d, ok) == (Delivery::Connect { again }) <==> again && d == (Delivery::Send {
            again: false,
        }) && !ok,
        following(d, ok) == (Delivery::Send { again }) <==> d == (Delivery::Connect { again }) && ok,
{
}

/// The delivery is over.
pub open spec fn over(d: Delivery) -> bool {
    d is Answered || d is Unreachable || d is Refused
}

/// The delivery after outside steps that went as told.
pub open spec fn delivered(connected: bool, steps: Seq<bool>) -> Delivery
    decreases steps.len(),
{
    if steps.len() == 0 {
        opening(connected)
    } else {
        following(delivered(connected, steps.drop_last()), steps.last())
    }
}

/// The times that a command has been sent.
pub open spec fn sends(connected: bool, steps: Seq<bool>) -> nat
    decreases steps.len(),
{
    if steps.len() == 0 {
        0
    } else if delivered(connected, steps.drop_last()) is Send {
        sends(connected, steps.drop_last()) + 1
    } else {
        sends(connected, steps.drop_last())
    }
}

/// However the outside steps go, a delivery is over after four of them, and
/// the command was sent no more than twice.
pub proof fn law_deliveries_end(connected: bool, steps: Seq<bool>)
    ensures
        steps.len() >= 4 ==> over(delivered(connected, steps)),
        sends(connected, steps) <= 2,
{
    lemma_delivery(connected, steps);
}

/// The steps that a delivery can still take.
spec fn left(d: Delivery) -> nat {
    match d {
        Delivery::Connect { again } => if again {
            2
        } else {
            4
        },
        Delivery::Send { again } => if again {
            1
        } else {
            3
        },
        _ => 0,
    }
}

proof fn lemma_delivery(connected: bool, steps: Seq<bool>)
    ensures
        left(delivered(connected, steps)) + steps.len() <= 4 || over(delivered(connected, steps)),
        ({
            let d = delivered(connected, steps);
            let n = sends(connected, steps);
            &&& n <= 2
            &&& (d matches Delivery::Connect { again } ==> n == (if again {
                1nat
            } else {
                0
            }))
            &&& (d matches Delivery::Send { again } ==> n == (if again {
                1nat
            } else {
                0
            }))
        }),
    decreases steps.len(),
{
    if steps.len() > 0 {
        lemma_delivery(connected, steps.drop_last());
    }
}

} // verus!
