//! Facts about templates with placeholders in braces: filling them in leaves
//! no placeholder behind, and what is put in stands in the result.

use vstd::prelude::*;

verus! {

/// `p` is a placeholder: it begins with a brace and holds no other.
pub open spec fn placeholder(p: Seq<char>) -> bool {
    &&& p.len() > 1
    &&& p[0] == '{'
    &&& forall|i: int| 0 < i < p.len() ==> #[trigger] p[i] != '{'
}

/// `p` and `q` are placeholders that differ in their first letter.
pub open spec fn told_apart(p: Seq<char>, q: Seq<char>) -> bool {
    placeholder(p) && placeholder(q) && p[1] != q[1]
}

/// Every opening brace in `s` begins `p` or `q`.
pub open spec fn braced(s: Seq<char>, p: Seq<char>, q: Seq<char>) -> bool {
    forall|i: int|
        0 <= i < s.len() && #[trigger] s[i] == '{' ==> crate::text::occurs_at(s, p, i)
            || crate::text::occurs_at(s, q, i)
}

/// No opening brace stands in `s`.
pub open spec fn bare(s: Seq<char>) -> bool {
    forall|i: int| 0 <= i < s.len() ==> #[trigger] s[i] != '{'
}

/// `s` with `a` put in for `p` and then `b` for `q`.
pub open spec fn filled(
    s: Seq<char>,
    p: Seq<char>,
    a: Seq<char>,
    q: Seq<char>,
    b: Seq<char>,
) -> Seq<char> {
    crate::text::replace_all(crate::text::replace_all(s, p, a), q, b)
}

proof fn lemma_occurs_later(s: Seq<char>, p: Seq<char>, n: int, i: int)
    requires
        0 <= n <= s.len(),
        0 <= i,
    ensures
        crate::text::occurs_at(s.skip(n), p, i) <==> crate::text::occurs_at(s, p, n + i),
{
    let t = s.skip(n);
    if n + i + p.len() <= s.len() {
        assert(t.subrange(i, i + p.len()) == s.subrange(n + i, n + i + p.len()));
    }
}

proof fn lemma_occurs_in_front(x: Seq<char>, y: Seq<char>, p: Seq<char>, i: int)
    requires
        0 <= i,
        i + p.len() <= x.len(),
    ensures
        crate::text::occurs_at(x + y, p, i) <==> crate::text::occurs_at(x, p, i),
{
    assert((x + y).subrange(i, i + p.len()) == x.subrange(i, i + p.len()));
}

proof fn lemma_braced_skip(s: Seq<char>, p: Seq<char>, q: Seq<char>, n: int)
    requires
        braced(s, p, q),
        0 <= n <= s.len(),
    ensures
        braced(s.skip(n), p, q),
{
    let t = s.skip(n);
    assert forall|i: int| 0 <= i < t.len() && #[trigger] t[i] == '{' implies crate::text::occurs_at(
        t,
        p,
        i,
    ) || crate::text::occurs_at(t, q, i) by {
        assert(s[n + i] == '{');
        lemma_occurs_later(s, p, n, i);
        lemma_occurs_later(s, q, n, i);
    }
}

/// A text is braced if its only braces stand where its placeholders begin. A
/// position below zero says that a placeholder is missing.
pub proof fn lemma_braced(s: Seq<char>, p: Seq<char>, pi: int, q: Seq<char>, qi: int)
    requires
        forall|i: int| 0 <= i < s.len() && #[trigger] s[i] == '{' ==> i == pi || i == qi,
        pi >= 0 ==> pi + p.len() <= s.len(),
        pi >= 0 ==> forall|j: int| 0 <= j < p.len() ==> s[pi + j] == #[trigger] p[j],
        qi >= 0 ==> qi + q.len() <= s.len(),
        qi >= 0 ==> forall|j: int| 0 <= j < q.len() ==> s[qi + j] == #[trigger] q[j],
    ensures
        braced(s, p, q),
        pi >= 0 ==> crate::text::occurs_at(s, p, pi),
        qi >= 0 ==> crate::text::occurs_at(s, q, qi),
{
    if pi >= 0 {
        assert(s.subrange(pi, pi + p.len()) == p);
    }
    if qi >= 0 {
        assert(s.subrange(qi, qi + q.len()) == q);
    }
}

/// A text whose braces all belong to placeholders inside it is filled in on
/// its own, whatever follows it.
pub proof fn lemma_fill_front(
    x: Seq<char>,
    y: Seq<char>,
    p: Seq<char>,
    q: Seq<char>,
    a: Seq<char>,
)
    requires
        placeholder(p),
        p == q || told_apart(p, q),
        braced(x, p, q),
    ensures
        crate::text::replace_all(x + y, p, a) == crate::text::replace_all(x, p, a)
            + crate::text::replace_all(y, p, a),
    decreases x.len(),
{
    let s = x + y;
    let n = p.len() as int;
    if x.len() == 0 {
        assert(s == y);
        assert(crate::text::replace_all(x, p, a) + crate::text::replace_all(y, p, a)
            == crate::text::replace_all(y, p, a));
    } else if crate::text::occurs_at(x, p, 0) {
        lemma_occurs_in_front(x, y, p, 0);
        assert(s.take(n) == s.subrange(0, n));
        assert(x.take(n) == x.subrange(0, n));
        assert(s.skip(n) == x.skip(n) + y);
        lemma_braced_skip(x, p, q, n);
        lemma_fill_front(x.skip(n), y, p, q, a);
        let r = crate::text::replace_all(x.skip(n), p, a);
        let t = crate::text::replace_all(y, p, a);
        assert(a + (r + t) == (a + r) + t);
    } else {
        assert(!crate::text::occurs_at(s, p, 0)) by {
            if crate::text::occurs_at(s, p, 0) {
                assert(s.subrange(0, n)[0] == s[0]);
                assert(s.subrange(0, n)[1] == s[1]);
                assert(x[0] == '{');
                assert(crate::text::occurs_at(x, q, 0));
                assert(x.subrange(0, q.len() as int)[1] == x[1]);
            }
        }
        if s.len() >= n {
            assert(s.take(n) == s.subrange(0, n));
        }
        if x.len() >= n {
            assert(x.take(n) == x.subrange(0, n));
        }
        assert(s.skip(1) == x.skip(1) + y);
        lemma_braced_skip(x, p, q, 1);
        lemma_fill_front(x.skip(1), y, p, q, a);
        let r = crate::text::replace_all(x.skip(1), p, a);
        let t = crate::text::replace_all(y, p, a);
        assert(seq![x[0]] + (r + t) == (seq![x[0]] + r) + t);
        if s.len() < n {
            assert(crate::text::replace_all(s, p, a) == s);
            assert(crate::text::replace_all(x, p, a) == x);
            assert(crate::text::replace_all(y, p, a) == y);
        } else if x.len() < n {
            assert(crate::text::replace_all(x.skip(1), p, a) == x.skip(1));
            assert(seq![x[0]] + x.skip(1) == x);
        }
    }
}

/// Filling in one of two placeholders leaves only braces of the other.
pub proof fn lemma_fill_one(s: Seq<char>, p: Seq<char>, q: Seq<char>, a: Seq<char>)
    requires
        placeholder(p),
        p == q || told_apart(p, q),
        braced(s, p, q),
        bare(a),
    ensures
        p == q ==> bare(crate::text::replace_all(s, p, a)),
        p != q ==> braced(crate::text::replace_all(s, p, a), q, q),
    decreases s.len(),
{
    let r = crate::text::replace_all(s, p, a);
    let n = p.len() as int;
    let m = q.len() as int;
    if s.len() == 0 {
        assert(r == s);
    } else if crate::text::occurs_at(s, p, 0) {
        assert(s.take(n) == s.subrange(0, n));
        lemma_braced_skip(s, p, q, n);
        lemma_fill_one(s.skip(n), p, q, a);
        let t = crate::text::replace_all(s.skip(n), p, a);
        assert(r == a + t);
        lemma_bare_then(a, t, q);
    } else if s[0] == '{' {
        assert(crate::text::occurs_at(s, q, 0));
        assert(p != q);
        let rest = s.skip(m);
        assert(s == q + rest) by {
            assert(s.subrange(0, m) == q);
        }
        lemma_placeholder_alone(q, p);
        lemma_fill_front(q, rest, p, q, a);
        lemma_braced_skip(s, p, q, m);
        lemma_fill_one(rest, p, q, a);
        let t = crate::text::replace_all(rest, p, a);
        crate::text::lemma_replace_none(q, p, a);
        assert(r == q + t);
        assert forall|i: int| 0 <= i < r.len() && #[trigger] r[i] == '{' implies crate::text::occurs_at(
            r,
            q,
            i,
        ) by {
            if i == 0 {
                assert(r.subrange(0, m) == q);
            } else if i >= m {
                assert(t[i - m] == '{');
                assert(r.skip(m) == t);
                lemma_occurs_later(r, q, m, i - m);
            }
        }
    } else {
        if s.len() >= n {
            assert(s.take(n) == s.subrange(0, n));
        }
        lemma_braced_skip(s, p, q, 1);
        lemma_fill_one(s.skip(1), p, q, a);
        let t = crate::text::replace_all(s.skip(1), p, a);
        if s.len() < n {
            assert(t == s.skip(1));
            assert(seq![s[0]] + t == s);
        }
        assert(r == seq![s[0]] + t);
        lemma_bare_then(seq![s[0]], t, q);
    }
}

/// What holds of the braces of a text holds behind a text without any.
proof fn lemma_bare_then(a: Seq<char>, t: Seq<char>, q: Seq<char>)
    requires
        bare(a),
    ensures
        bare(t) ==> bare(a + t),
        braced(t, q, q) ==> braced(a + t, q, q),
{
    let r = a + t;
    let n = a.len() as int;
    assert(r.skip(n) == t);
    if braced(t, q, q) {
        assert forall|i: int| 0 <= i < r.len() && #[trigger] r[i] == '{' implies crate::text::occurs_at(
            r,
            q,
            i,
        ) by {
            if i < n {
                assert(a[i] == '{');
            } else {
                assert(t[i - n] == '{');
                lemma_occurs_later(r, q, n, i - n);
            }
        }
    }
}

/// A placeholder holds itself and nothing of another.
proof fn lemma_placeholder_alone(q: Seq<char>, p: Seq<char>)
    requires
        told_apart(p, q),
    ensures
        braced(q, p, q),
        forall|i: int| !crate::text::occurs_at(q, p, i),
{
    assert(q.subrange(0, q.len() as int) == q);
    assert forall|i: int| 0 <= i < q.len() && #[trigger] q[i] == '{' implies crate::text::occurs_at(
        q,
        p,
        i,
    ) || crate::text::occurs_at(q, q, i) by {}
    assert forall|i: int| !crate::text::occurs_at(q, p, i) by {
        if crate::text::occurs_at(q, p, i) {
            assert(q.subrange(i, i + p.len())[0] == q[i]);
            assert(q.subrange(i, i + p.len())[1] == q[i + 1]);
        }
    }
}

/// Filling in both placeholders leaves no brace.
pub proof fn lemma_fill_leaves_no_brace(
    s: Seq<char>,
    p: Seq<char>,
    a: Seq<char>,
    q: Seq<char>,
    b: Seq<char>,
)
    requires
        told_apart(p, q),
        braced(s, p, q),
        bare(a),
        bare(b),
    ensures
        bare(filled(s, p, a, q, b)),
{
    lemma_fill_one(s, p, q, a);
    lemma_fill_one(crate::text::replace_all(s, p, a), q, q, b);
}

/// The text before a placeholder has its braces to itself.
proof fn lemma_front_is_braced(s: Seq<char>, p: Seq<char>, q: Seq<char>, at: int)
    requires
        told_apart(p, q),
        braced(s, p, q),
        0 <= at < s.len(),
        s[at] == '{',
    ensures
        braced(s.take(at), p, q),
{
    let x = s.take(at);
    let y = s.skip(at);
    assert(x + y == s);
    assert forall|i: int| 0 <= i < x.len() && #[trigger] x[i] == '{' implies crate::text::occurs_at(
        x,
        p,
        i,
    ) || crate::text::occurs_at(x, q, i) by {
        assert(s[i] == '{');
        if crate::text::occurs_at(s, p, i) {
            if i + p.len() > at {
                assert(s.subrange(i, i + p.len())[at - i] == s[at]);
            }
            lemma_occurs_in_front(x, y, p, i);
        } else {
            assert(crate::text::occurs_at(s, q, i));
            if i + q.len() > at {
                assert(s.subrange(i, i + q.len())[at - i] == s[at]);
            }
            lemma_occurs_in_front(x, y, q, i);
        }
    }
}

/// What is put in for the first placeholder stands in the result.
pub proof fn lemma_fill_keeps_first(
    s: Seq<char>,
    p: Seq<char>,
    a: Seq<char>,
    q: Seq<char>,
    b: Seq<char>,
    at: int,
)
    requires
        told_apart(p, q),
        braced(s, p, q),
        crate::text::occurs_at(s, p, at),
        bare(a),
    ensures
        crate::text::contains(filled(s, p, a, q, b), a),
{
    let n = p.len() as int;
    let x = s.take(at);
    let y = s.skip(at + n);
    assert(s.subrange(at, at + n)[0] == s[at]);
    lemma_front_is_braced(s, p, q, at);
    assert(s == x + (p + y)) by {
        assert(s.subrange(at, at + n) == p);
    }
    lemma_fill_front(x, p + y, p, q, a);
    assert((p + y).take(n) == p);
    assert((p + y).skip(n) == y);
    let fx = crate::text::replace_all(x, p, a);
    let fy = crate::text::replace_all(y, p, a);
    assert(crate::text::replace_all(s, p, a) == fx + (a + fy));
    lemma_fill_one(x, p, q, a);
    lemma_fill_front(fx, a + fy, q, q, b);
    assert(braced(a, q, q));
    lemma_fill_front(a, fy, q, q, b);
    lemma_nothing_to_fill(a, q, b);
    let gx = crate::text::replace_all(fx, q, b);
    let gy = crate::text::replace_all(fy, q, b);
    let all = filled(s, p, a, q, b);
    assert(all == gx + (a + gy));
    assert(all.subrange(gx.len() as int, gx.len() as int + a.len()) == a);
    assert(crate::text::occurs_at(all, a, gx.len() as int));
}

/// What is put in for the second placeholder stands in the result.
pub proof fn lemma_fill_keeps_second(
    s: Seq<char>,
    p: Seq<char>,
    a: Seq<char>,
    q: Seq<char>,
    b: Seq<char>,
    at: int,
)
    requires
        told_apart(p, q),
        braced(s, p, q),
        crate::text::occurs_at(s, q, at),
        bare(a),
    ensures
        crate::text::contains(filled(s, p, a, q, b), b),
{
    let n = q.len() as int;
    let x = s.take(at);
    let y = s.skip(at + n);
    assert(s.subrange(at, at + n)[0] == s[at]);
    lemma_front_is_braced(s, p, q, at);
    assert(s == x + (q + y)) by {
        assert(s.subrange(at, at + n) == q);
    }
    lemma_fill_front(x, q + y, p, q, a);
    lemma_placeholder_alone(q, p);
    lemma_fill_front(q, y, p, q, a);
    crate::text::lemma_replace_none(q, p, a);
    let fx = crate::text::replace_all(x, p, a);
    let fy = crate::text::replace_all(y, p, a);
    assert(crate::text::replace_all(s, p, a) == fx + (q + fy));
    lemma_fill_one(x, p, q, a);
    lemma_fill_front(fx, q + fy, q, q, b);
    assert((q + fy).take(n) == q);
    assert((q + fy).skip(n) == fy);
    let gx = crate::text::replace_all(fx, q, b);
    let gy = crate::text::replace_all(fy, q, b);
    let all = filled(s, p, a, q, b);
    assert(all == gx + (b + gy));
    assert(all.subrange(gx.len() as int, gx.len() as int + b.len()) == b);
    assert(crate::text::occurs_at(all, b, gx.len() as int));
}

/// What is put in for the second placeholder stands in the result, whatever
/// is put in for the first, if no brace comes before it.
pub proof fn lemma_fill_keeps_early_second(
    s: Seq<char>,
    p: Seq<char>,
    a: Seq<char>,
    q: Seq<char>,
    b: Seq<char>,
    at: int,
)
    requires
        told_apart(p, q),
        crate::text::occurs_at(s, q, at),
        bare(s.take(at)),
    ensures
        crate::text::contains(filled(s, p, a, q, b), b),
{
    let n = q.len() as int;
    let x = s.take(at);
    let y = s.skip(at + n);
    assert(s == x + (q + y)) by {
        assert(s.subrange(at, at + n) == q);
    }
    lemma_fill_front(x, q + y, p, q, a);
    lemma_nothing_to_fill(x, p, a);
    lemma_placeholder_alone(q, p);
    lemma_fill_front(q, y, p, q, a);
    crate::text::lemma_replace_none(q, p, a);
    let fy = crate::text::replace_all(y, p, a);
    assert(crate::text::replace_all(s, p, a) == x + (q + fy));
    lemma_fill_front(x, q + fy, q, q, b);
    lemma_nothing_to_fill(x, q, b);
    assert((q + fy).take(n) == q);
    assert((q + fy).skip(n) == fy);
    let gy = crate::text::replace_all(fy, q, b);
    let all = filled(s, p, a, q, b);
    assert(all == x + (b + gy));
    assert(all.subrange(at, at + b.len()) == b);
    assert(crate::text::occurs_at(all, b, at));
}

/// Without a brace there is no placeholder.
pub proof fn lemma_bare_holds_no_placeholder(a: Seq<char>, q: Seq<char>)
    requires
        bare(a),
        placeholder(q),
    ensures
        forall|i: int| !crate::text::occurs_at(a, q, i),
        !crate::text::contains(a, q),
{
    assert forall|i: int| !crate::text::occurs_at(a, q, i) by {
        if crate::text::occurs_at(a, q, i) {
            assert(a.subrange(i, i + q.len())[0] == a[i]);
        }
    }
}

proof fn lemma_nothing_to_fill(a: Seq<char>, q: Seq<char>, b: Seq<char>)
    requires
        bare(a),
        placeholder(q),
    ensures
        crate::text::replace_all(a, q, b) == a,
{
    lemma_bare_holds_no_placeholder(a, q);
    crate::text::lemma_replace_none(a, q, b);
}

/// The part of a template before its first brace stays as it is.
pub proof fn lemma_fill_keeps_opening(
    s: Seq<char>,
    p: Seq<char>,
    a: Seq<char>,
    q: Seq<char>,
    b: Seq<char>,
    n: int,
)
    requires
        told_apart(p, q),
        0 <= n <= s.len(),
        bare(s.take(n)),
    ensures
        filled(s, p, a, q, b).len() >= n,
        filled(s, p, a, q, b).take(n) == s.take(n),
{
    let x = s.take(n);
    let y = s.skip(n);
    assert(x + y == s);
    lemma_fill_front(x, y, p, q, a);
    lemma_nothing_to_fill(x, p, a);
    let fy = crate::text::replace_all(y, p, a);
    lemma_fill_front(x, fy, q, q, b);
    lemma_nothing_to_fill(x, q, b);
}

} // verus!
