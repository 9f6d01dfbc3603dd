//! Character-level helpers over string views.

use vstd::prelude::*;

verus! {

/// `p` occurs in `s` starting at index `i`.
pub open spec fn occurs_at(s: Seq<char>, p: Seq<char>, i: int) -> bool {
    0 <= i && i + p.len() <= s.len() && s.subrange(i, i + p.len()) == p
}

/// Strips every leading repetition of a non-empty literal `p` (the behaviour
/// of `str::trim_start_matches` with a string pattern).
pub open spec fn trim_start(s: Seq<char>, p: Seq<char>) -> Seq<char>
    decreases s.len(),
{
    if p.len() > 0 && occurs_at(s, p, 0) {
        trim_start(s.subrange(p.len() as int, s.len() as int), p)
    } else {
        s
    }
}

/// Strips every trailing repetition of a non-empty literal `p`.
pub open spec fn trim_end(s: Seq<char>, p: Seq<char>) -> Seq<char>
    decreases s.len(),
{
    if p.len() > 0 && occurs_at(s, p, s.len() - p.len()) {
        trim_end(s.subrange(0, s.len() - p.len()), p)
    } else {
        s
    }
}

/// A character that may stand in an HTTP header value read as text:
/// horizontal tab or visible ASCII (space included).
pub open spec fn is_header_char(c: char) -> bool {
    c == '\t' || (' ' <= c && c <= '~')
}

pub open spec fn is_header_text(s: Seq<char>) -> bool {
    forall|i: int| 0 <= i < s.len() ==> is_header_char(#[trigger] s[i])
}

/// Whether `p` occurs in `s` at index `i`.
pub fn matches_at(s: &str, i: usize, p: &str) -> (r: bool)
    ensures
        r == occurs_at(s@, p@, i as int),
{
    let n = s.unicode_len();
    let m = p.unicode_len();
    if i > n || m > n - i {
        return false;
    }
    let mut k: usize = 0;
    while k < m
        invariant
            n == s@.len(),
            m == p@.len(),
            i + m <= n,
            k <= m,
            forall|j: int| 0 <= j < k ==> s@[i + j] == p@[j],
        decreases m - k,
    {
        if s.get_char(i + k) != p.get_char(k) {
            assert(s@.subrange(i as int, i + m)[k as int] != p@[k as int]);
            return false;
        }
        k = k + 1;
    }
    assert(s@.subrange(i as int, i + m) =~= p@);
    true
}

proof fn lemma_trim_start_step(s: Seq<char>, p: Seq<char>, a: int, b: int)
    requires
        0 <= a <= b <= s.len(),
        p.len() > 0,
        occurs_at(s, p, a),
        a + p.len() <= b,
    ensures
        trim_start(s.subrange(a, b), p) == trim_start(s.subrange(a + p.len(), b), p),
{
    let t = s.subrange(a, b);
    assert(t.subrange(0, p.len() as int) =~= s.subrange(a, a + p.len()));
    assert(t.subrange(p.len() as int, t.len() as int) =~= s.subrange(a + p.len(), b));
}

proof fn lemma_trim_end_step(s: Seq<char>, p: Seq<char>, a: int, b: int)
    requires
        0 <= a <= b <= s.len(),
        p.len() > 0,
        occurs_at(s, p, b - p.len()),
        a <= b - p.len(),
    ensures
        trim_end(s.subrange(a, b), p) == trim_end(s.subrange(a, b - p.len()), p),
{
    let t = s.subrange(a, b);
    assert(t.subrange(t.len() - p.len(), t.len() as int) =~= s.subrange(b - p.len(), b));
    assert(t.subrange(0, t.len() - p.len()) =~= s.subrange(a, b - p.len()));
}

/// Index range `(a, b)` of `s` that remains once leading repetitions of
/// `pre` and then trailing repetitions of `suf` are removed.
pub fn trim_bounds(s: &str, pre: Option<&str>, suf: Option<&str>) -> (r: (usize, usize))
    ensures
        r.0 <= r.1 <= s@.len(),
        s@.subrange(r.0 as int, r.1 as int) == trim_end(
            trim_start(
                s@,
                match pre {
                    Some(p) => p@,
                    None => Seq::empty(),
                },
            ),
            match suf {
                Some(p) => p@,
                None => Seq::empty(),
            },
        ),
{
    let n = s.unicode_len();
    let ghost ps: Seq<char> = match pre {
        Some(p) => p@,
        None => Seq::empty(),
    };
    let ghost qs: Seq<char> = match suf {
        Some(p) => p@,
        None => Seq::empty(),
    };
    let mut a: usize = 0;
    assert(s@.subrange(0, n as int) =~= s@);
    if let Some(p) = pre {
        let m = p.unicode_len();
        if m > 0 {
            while matches_at(s, a, p)
                invariant
                    n == s@.len(),
                    m == p@.len(),
                    m > 0,
                    ps == p@,
                    a <= n,
                    trim_start(s@, ps) == trim_start(s@.subrange(a as int, n as int), ps),
                decreases n - a,
            {
                proof {
                    lemma_trim_start_step(s@, ps, a as int, n as int);
                }
                a = a + m;
            }
        }
    }
    let ghost t = s@.subrange(a as int, n as int);
    assert(t == trim_start(s@, ps)) by {
        if ps.len() > 0 {
            assert(!occurs_at(t, ps, 0) ==> trim_start(t, ps) == t);
            assert(occurs_at(t, ps, 0) <==> occurs_at(s@, ps, a as int)) by {
                if a + ps.len() <= n {
                    assert(t.subrange(0, ps.len() as int) =~= s@.subrange(
                        a as int,
                        a + ps.len(),
                    ));
                }
            };
        }
    };
    let mut b: usize = n;
    assert(s@.subrange(a as int, b as int) == t);
    if let Some(p) = suf {
        let m = p.unicode_len();
        if m > 0 {
            while b - a >= m && matches_at(s, b - m, p)
                invariant
                    n == s@.len(),
                    m == p@.len(),
                    m > 0,
                    qs == p@,
                    a <= b <= n,
                    trim_end(t, qs) == trim_end(s@.subrange(a as int, b as int), qs),
                decreases b,
            {
                proof {
                    lemma_trim_end_step(s@, qs, a as int, b as int);
                }
                b = b - m;
            }
            proof {
                let u = s@.subrange(a as int, b as int);
                if u.len() >= m {
                    assert(u.subrange(u.len() - m, u.len() as int) =~= s@.subrange(
                        b - m,
                        b as int,
                    ));
                }
            }
        }
    }
    (a, b)
}

/// Whether every character of `s` may stand in a header value read as text.
pub fn is_header_str(s: &str) -> (r: bool)
    ensures
        r == is_header_text(s@),
{
    let n = s.unicode_len();
    let mut i: usize = 0;
    while i < n
        invariant
            n == s@.len(),
            i <= n,
            forall|j: int| 0 <= j < i ==> is_header_char(#[trigger] s@[j]),
        decreases n - i,
    {
        let c = s.get_char(i);
        if !(c == '\t' || (' ' <= c && c <= '~')) {
            return false;
        }
        i = i + 1;
    }
    true
}

} // verus!
