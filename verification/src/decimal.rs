//! Decimal text of 64-bit integers, as the settings table stores them:
//! `to_string` on `i64` and `str::parse::<i64>`.

use vstd::prelude::*;

verus! {

pub open spec fn is_digit(c: char) -> bool {
    c == '0' || c == '1' || c == '2' || c == '3' || c == '4' || c == '5' || c == '6' || c == '7'
        || c == '8' || c == '9'
}

pub open spec fn digit_value(c: char) -> int {
    if c == '1' {
        1
    } else if c == '2' {
        2
    } else if c == '3' {
        3
    } else if c == '4' {
        4
    } else if c == '5' {
        5
    } else if c == '6' {
        6
    } else if c == '7' {
        7
    } else if c == '8' {
        8
    } else if c == '9' {
        9
    } else {
        0
    }
}

pub open spec fn digit_char(d: int) -> char {
    if d == 1 {
        '1'
    } else if d == 2 {
        '2'
    } else if d == 3 {
        '3'
    } else if d == 4 {
        '4'
    } else if d == 5 {
        '5'
    } else if d == 6 {
        '6'
    } else if d == 7 {
        '7'
    } else if d == 8 {
        '8'
    } else if d == 9 {
        '9'
    } else {
        '0'
    }
}

/// Decimal digits of `n`, most significant first, without leading zeros.
pub open spec fn digits_seq(n: nat) -> Seq<char>
    decreases n,
{
    if n < 10 {
        seq![digit_char(n as int)]
    } else {
        digits_seq(n / 10).push(digit_char((n % 10) as int))
    }
}

/// The decimal text of `v`: a minus sign for negative values, then digits.
pub open spec fn decimal_seq(v: int) -> Seq<char> {
    if v < 0 {
        seq!['-'] + digits_seq((-v) as nat)
    } else {
        digits_seq(v as nat)
    }
}

/// The value of a string of decimal digits.
pub open spec fn digits_value(s: Seq<char>) -> int
    decreases s.len(),
{
    if s.len() == 0 {
        0
    } else {
        digits_value(s.drop_last()) * 10 + digit_value(s.last())
    }
}

pub open spec fn all_digits(s: Seq<char>) -> bool {
    forall|i: int| 0 <= i < s.len() ==> is_digit(#[trigger] s[i])
}

/// What `str::parse::<i64>` accepts: an optional `+` or `-`, then at least
/// one decimal digit and nothing else, with a value in the range of `i64`.
pub open spec fn parse_i64_seq(s: Seq<char>) -> Option<i64> {
    let neg = s.len() > 0 && s[0] == '-';
    let body = if s.len() > 0 && (s[0] == '-' || s[0] == '+') {
        s.drop_first()
    } else {
        s
    };
    let v = if neg {
        -digits_value(body)
    } else {
        digits_value(body)
    };
    if body.len() == 0 || !all_digits(body) || v < i64::MIN || v > i64::MAX {
        None
    } else {
        Some(v as i64)
    }
}

pub proof fn lemma_digits_seq(n: nat)
    ensures
        digits_seq(n).len() > 0,
        all_digits(digits_seq(n)),
        digits_value(digits_seq(n)) == n,
        digits_seq(n)[0] != '-' && digits_seq(n)[0] != '+',
    decreases n,
{
    if n >= 10 {
        lemma_digits_seq(n / 10);
        let s = digits_seq(n);
        assert(s.drop_last() =~= digits_seq(n / 10));
        assert forall|i: int| 0 <= i < s.len() implies is_digit(#[trigger] s[i]) by {
            if i < s.len() - 1 {
                assert(s[i] == digits_seq(n / 10)[i]);
            }
        }
    } else {
        assert(digits_value(seq![digit_char(n as int)].drop_last()) == 0);
    }
}

proof fn lemma_digits_value_mono(s: Seq<char>, k: int)
    requires
        0 <= k <= s.len(),
        all_digits(s),
    ensures
        digits_value(s.take(k)) <= digits_value(s),
        0 <= digits_value(s.take(k)),
    decreases s.len(),
{
    if s.len() == 0 {
        assert(s.take(k) =~= s);
    } else if k == s.len() {
        assert(s.take(k) =~= s);
        lemma_digits_value_mono(s.drop_last(), k - 1);
        assert(s.drop_last().take(k - 1) =~= s.take(k - 1));
    } else {
        lemma_digits_value_mono(s.drop_last(), k);
        assert(s.drop_last().take(k) =~= s.take(k));
        lemma_digits_value_mono(s.drop_last(), s.len() - 1);
        assert(s.drop_last().take(s.len() - 1) =~= s.drop_last());
    }
}

/// Parsing the decimal text of a value gives the value back.
pub proof fn lemma_parse_decimal(v: i64)
    ensures
        parse_i64_seq(decimal_seq(v as int)) == Some(v),
{
    if v < 0 {
        let m = (-(v as int)) as nat;
        lemma_digits_seq(m);
        let s = decimal_seq(v as int);
        assert(s.drop_first() =~= digits_seq(m));
    } else {
        lemma_digits_seq(v as nat);
    }
}

fn digit_char_of(d: u64) -> (c: char)
    requires
        d < 10,
    ensures
        c == digit_char(d as int),
{
    if d == 1 {
        '1'
    } else if d == 2 {
        '2'
    } else if d == 3 {
        '3'
    } else if d == 4 {
        '4'
    } else if d == 5 {
        '5'
    } else if d == 6 {
        '6'
    } else if d == 7 {
        '7'
    } else if d == 8 {
        '8'
    } else if d == 9 {
        '9'
    } else {
        '0'
    }
}

fn digit_value_of(c: char) -> (d: u64)
    ensures
        d == digit_value(c),
{
    if c == '1' {
        1
    } else if c == '2' {
        2
    } else if c == '3' {
        3
    } else if c == '4' {
        4
    } else if c == '5' {
        5
    } else if c == '6' {
        6
    } else if c == '7' {
        7
    } else if c == '8' {
        8
    } else if c == '9' {
        9
    } else {
        0
    }
}

fn push_digits(out: &mut Vec<char>, n: u64)
    ensures
        final(out)@ == old(out)@ + digits_seq(n as nat),
    decreases n,
{
    if n >= 10 {
        push_digits(out, n / 10);
    }
    out.push(digit_char_of(n % 10));
    proof {
        if n >= 10 {
            assert(old(out)@ + digits_seq(n as nat) =~= old(out)@ + digits_seq((n / 10) as nat) + seq![
                digit_char((n % 10) as int),
            ]);
        } else {
            assert(old(out)@ + digits_seq(n as nat) =~= old(out)@.push(digit_char(n as int)));
        }
    }
}

/// The decimal text of `v` (`i64::to_string`).
pub fn format_i64(v: i64) -> (r: String)
    ensures
        r@ == decimal_seq(v as int),
{
    let mut out: Vec<char> = Vec::new();
    if v < 0 {
        out.push('-');
        let m: u64 = (0i128 - (v as i128)) as u64;
        push_digits(&mut out, m);
        assert(out@ =~= seq!['-'] + digits_seq((-(v as int)) as nat));
    } else {
        push_digits(&mut out, v as u64);
        assert(out@ =~= digits_seq(v as nat));
    }
    crate::text::string_from_chars(&out)
}

/// The decimal text of a count (`usize::to_string`).
pub fn format_count(n: usize) -> (r: String)
    ensures
        r@ == decimal_seq(n as int),
{
    let mut out: Vec<char> = Vec::new();
    push_digits(&mut out, n as u64);
    assert(out@ =~= digits_seq(n as nat));
    crate::text::string_from_chars(&out)
}

/// Parses decimal text into an `i64` (`str::parse::<i64>`).
pub fn parse_i64(s: &str) -> (r: Option<i64>)
    ensures
        r == parse_i64_seq(s@),
{
    let cs = crate::text::str_chars(s);
    let n = cs.len();
    let neg = n > 0 && cs[0] == '-';
    let start: usize = if n > 0 && (cs[0] == '-' || cs[0] == '+') {
        1
    } else {
        0
    };
    let ghost body = if start == 1 {
        cs@.drop_first()
    } else {
        cs@
    };
    assert(body =~= cs@.skip(start as int));
    assert(body == (if s@.len() > 0 && (s@[0] == '-' || s@[0] == '+') {
        s@.drop_first()
    } else {
        s@
    }));
    if start == n {
        return None;
    }
    let limit: u64 = 9223372036854775808u64;
    let mut acc: u64 = 0;
    let mut i: usize = start;
    while i < n
        invariant
            cs@ == s@,
            n == cs@.len(),
            start <= i <= n,
            body == cs@.skip(start as int),
            body == (if s@.len() > 0 && (s@[0] == '-' || s@[0] == '+') {
                s@.drop_first()
            } else {
                s@
            }),
            neg == (s@.len() > 0 && s@[0] == '-'),
            all_digits(cs@.subrange(start as int, i as int)),
            acc as int == digits_value(cs@.subrange(start as int, i as int)),
            acc <= limit,
            limit == 9223372036854775808u64,
        decreases n - i,
    {
        let c = cs[i];
        if !(c == '0' || c == '1' || c == '2' || c == '3' || c == '4' || c == '5' || c == '6' || c
            == '7' || c == '8' || c == '9') {
            assert(body[i - start] == c);
            assert(!is_digit(body[i - start]));
            assert(!all_digits(body));
            return None;
        }
        let d = digit_value_of(c);
        assert(d <= 9);
        let ghost pre = cs@.subrange(start as int, i as int);
        let ghost nxt = cs@.subrange(start as int, i + 1);
        assert(nxt.drop_last() =~= pre);
        assert(nxt.last() == c);
        assert forall|k: int| 0 <= k < nxt.len() implies is_digit(#[trigger] nxt[k]) by {
            if k < pre.len() {
                assert(nxt[k] == pre[k]);
            }
        }
        if acc > (limit - d) / 10 {
            proof {
                assert(acc * 10 + d > limit) by (nonlinear_arith)
                    requires
                        acc > (limit - d) / 10,
                        d <= 9,
                        limit == 9223372036854775808u64,
                ;
                assert(digits_value(nxt) == digits_value(pre) * 10 + digit_value(c));
                assert(digits_value(nxt) > limit);
                assert(body.take(i + 1 - start) =~= nxt);
                if all_digits(body) {
                    lemma_digits_value_mono(body, i + 1 - start);
                    assert(digits_value(body) > limit);
                }
            }
            return None;
        }
        acc = acc * 10 + d;
        i = i + 1;
    }
    assert(cs@.subrange(start as int, n as int) =~= body);
    if neg {
        Some((0i128 - (acc as i128)) as i64)
    } else if acc <= 9223372036854775807u64 {
        Some(acc as i64)
    } else {
        None
    }
}


/// What `str::parse::<usize>` reads, leaving its upper limit aside: an
/// optional `+`, then at least one decimal digit and nothing else.
pub open spec fn parse_index_seq(s: Seq<char>) -> Option<int> {
    let body = if s.len() > 0 && s[0] == '+' {
        s.drop_first()
    } else {
        s
    };
    if body.len() == 0 || !all_digits(body) {
        None
    } else {
        Some(digits_value(body))
    }
}

/// Reads `s` as a number from 1 to `n` (`str::parse::<usize>`, then the
/// range test); `None` when it is not such a number.
pub fn parse_index_upto(s: &str, n: usize) -> (r: Option<usize>)
    ensures
        match r {
            Some(i) => parse_index_seq(s@) == Some(i as int) && 1 <= i <= n,
            None => !(parse_index_seq(s@) matches Some(i) && 1 <= i <= n),
        },
{
    let cs = crate::text::str_chars(s);
    let len = cs.len();
    let start: usize = if len > 0 && cs[0] == '+' {
        1
    } else {
        0
    };
    let ghost body = if start == 1 {
        cs@.drop_first()
    } else {
        cs@
    };
    assert(body =~= cs@.skip(start as int));
    if start == len {
        return None;
    }
    let mut acc: u64 = 0;
    let mut i: usize = start;
    while i < len
        invariant
            cs@ == s@,
            len == cs@.len(),
            start <= i <= len,
            body == cs@.skip(start as int),
            body == (if s@.len() > 0 && s@[0] == '+' {
                s@.drop_first()
            } else {
                s@
            }),
            all_digits(cs@.subrange(start as int, i as int)),
            acc as int == digits_value(cs@.subrange(start as int, i as int)),
            acc <= n,
        decreases len - i,
    {
        let c = cs[i];
        if !(c == '0' || c == '1' || c == '2' || c == '3' || c == '4' || c == '5' || c == '6' || c
            == '7' || c == '8' || c == '9') {
            assert(body[i - start] == c);
            assert(!is_digit(body[i - start]));
            assert(!all_digits(body));
            return None;
        }
        let d = digit_value_of(c);
        assert(d <= 9);
        let ghost pre = cs@.subrange(start as int, i as int);
        let ghost nxt = cs@.subrange(start as int, i + 1);
        assert(nxt.drop_last() =~= pre);
        assert(nxt.last() == c);
        assert forall|k: int| 0 <= k < nxt.len() implies is_digit(#[trigger] nxt[k]) by {
            if k < pre.len() {
                assert(nxt[k] == pre[k]);
            }
        }
        let v: u128 = (acc as u128) * 10 + (d as u128);
        if v > n as u128 {
            proof {
                assert(digits_value(nxt) == digits_value(pre) * 10 + digit_value(c));
                assert(digits_value(nxt) > n);
                assert(body.take(i + 1 - start) =~= nxt);
                if all_digits(body) {
                    lemma_digits_value_mono(body, i + 1 - start);
                }
            }
            return None;
        }
        acc = v as u64;
        i = i + 1;
    }
    assert(cs@.subrange(start as int, len as int) =~= body);
    if acc == 0 {
        None
    } else {
        Some(acc as usize)
    }
}
} // verus!
