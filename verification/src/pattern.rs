//! SQL `LIKE` pattern matching as SQLite performs it by default: `%` matches
//! any run of characters, `_` exactly one character, and every other
//! character itself, ignoring case for the ASCII letters only.

use vstd::prelude::*;

verus! {

/// Pattern character `p` matches text character `t`.
pub open spec fn like_char_match(p: char, t: char) -> bool {
    ||| p == t
    ||| 'A' <= p <= 'Z' && t as int == p as int + 32
    ||| 'a' <= p <= 'z' && t as int == p as int - 32
}

/// Text `t` matches `LIKE` pattern `p`.
pub open spec fn like_match(p: Seq<char>, t: Seq<char>) -> bool
    decreases p.len() + t.len(),
{
    if p.len() == 0 {
        t.len() == 0
    } else if p[0] == '%' {
        like_match(p.drop_first(), t) || (t.len() > 0 && like_match(p, t.drop_first()))
    } else if t.len() == 0 {
        false
    } else if p[0] == '_' {
        like_match(p.drop_first(), t.drop_first())
    } else {
        like_char_match(p[0], t[0]) && like_match(p.drop_first(), t.drop_first())
    }
}

fn like_char_match_exec(p: char, t: char) -> (r: bool)
    ensures
        r == like_char_match(p, t),
{
    let pu = p as u32;
    let tu = t as u32;
    p == t || ('A' <= p && p <= 'Z' && tu == pu + 32) || ('a' <= p && p <= 'z' && tu + 32 == pu)
}

/// Decides whether `text` matches the `LIKE` pattern `pattern`
/// (dynamic programming over the suffixes of both).
pub fn like_matches(pattern: &Vec<char>, text: &Vec<char>) -> (r: bool)
    ensures
        r == like_match(pattern@, text@),
{
    let m = pattern.len();
    let n = text.len();
    let ghost p = pattern@;
    let ghost t = text@;
    // For the current pattern suffix p.skip(i):
    // next@[k] == like_match(p.skip(i), t.skip(k)) for k < n, and
    // next_end == like_match(p.skip(i), t.skip(n)).
    let mut next: Vec<bool> = Vec::new();
    for j in 0..n
        invariant
            n == t.len(),
            next@.len() == j,
            forall|k: int| 0 <= k < j ==> !#[trigger] next@[k],
    {
        next.push(false);
    }
    let mut next_end = true;
    assert forall|k: int| 0 <= k < n implies #[trigger] next@[k] == like_match(
        p.skip(m as int),
        t.skip(k),
    ) by {
        assert(p.skip(m as int).len() == 0);
    }
    assert(p.skip(m as int).len() == 0);
    assert(t.skip(n as int).len() == 0);
    let mut i: usize = m;
    while i > 0
        invariant
            m == p.len(),
            n == t.len(),
            p == pattern@,
            t == text@,
            0 <= i <= m,
            next@.len() == n,
            forall|k: int| 0 <= k < n ==> #[trigger] next@[k] == like_match(p.skip(i as int), t.skip(k)),
            next_end == like_match(p.skip(i as int), t.skip(n as int)),
        decreases i,
    {
        let ii = i - 1;
        let pc = pattern[ii];
        let ghost pi = p.skip(ii as int);
        assert(pi.drop_first() =~= p.skip(i as int));
        assert(pi[0] == pc);
        let ghost tn = t.skip(n as int);
        assert(tn.len() == 0);
        let cur_end = pc == '%' && next_end;
        let mut cur: Vec<bool> = Vec::new();
        for k in 0..n
            invariant
                cur@.len() == k,
        {
            cur.push(false);
        }
        let mut j: usize = n;
        while j > 0
            invariant
                m == p.len(),
                n == t.len(),
                p == pattern@,
                t == text@,
                ii < m,
                pi == p.skip(ii as int),
                pi.drop_first() == p.skip(ii + 1),
                pi[0] == pc,
                0 <= j <= n,
                next@.len() == n,
                cur@.len() == n,
                forall|k: int| 0 <= k < n ==> #[trigger] next@[k] == like_match(p.skip(ii + 1), t.skip(k)),
                next_end == like_match(p.skip(ii + 1), t.skip(n as int)),
                cur_end == like_match(pi, t.skip(n as int)),
                forall|k: int| j <= k < n ==> #[trigger] cur@[k] == like_match(pi, t.skip(k)),
            decreases j,
        {
            let jj = j - 1;
            let ghost tj = t.skip(jj as int);
            assert(tj.drop_first() =~= t.skip(jj + 1));
            assert(tj[0] == text@[jj as int]);
            assert(tj.len() == n - jj);
            let after = if jj + 1 < n {
                next[jj + 1]
            } else {
                next_end
            };
            let cur_after = if jj + 1 < n {
                cur[jj + 1]
            } else {
                cur_end
            };
            let v = if pc == '%' {
                next[jj] || cur_after
            } else if pc == '_' {
                after
            } else {
                like_char_match_exec(pc, text[jj]) && after
            };
            cur.set(jj, v);
            j = jj;
        }
        next = cur;
        next_end = cur_end;
        i = ii;
    }
    assert(p.skip(0) =~= p);
    assert(t.skip(0) =~= t);
    if n == 0 {
        next_end
    } else {
        next[0]
    }
}

} // verus!
