//! Icon data URLs (`data:image/png;base64,...`): splitting one into its
//! media type and payload, and decoding the Base64 payload.

use vstd::prelude::*;
use crate::text::{first_index_of, find_char, is_white_space, is_whitespace, seq_starts_with, starts_with, str_chars, string_from_range};

verus! {

/// The text `data:`.
pub open spec fn data_scheme() -> Seq<char> {
    seq!['d', 'a', 't', 'a', ':']
}

/// The media type and the payload of a data URL: the text after `data:` up
/// to the first `;`, and the text after the first `,` that follows it.
pub open spec fn data_url_parts(s: Seq<char>) -> Option<(Seq<char>, Seq<char>)> {
    if !seq_starts_with(s, data_scheme()) {
        None
    } else {
        let a = s.skip(5);
        match first_index_of(a, ';') {
            None => None,
            Some(i) => {
                let rest = a.skip(i + 1);
                match first_index_of(rest, ',') {
                    None => None,
                    Some(j) => Some((a.take(i), rest.skip(j + 1))),
                }
            },
        }
    }
}

/// Splits a data URL into its media type and its payload.
pub fn parse_data_url(data_url: &str) -> (r: Option<(String, String)>)
    ensures
        match r {
            Some((format, payload)) => data_url_parts(data_url@) == Some((format@, payload@)),
            None => data_url_parts(data_url@) is None,
        },
{
    let cs = str_chars(data_url);
    proof {
        reveal_strlit("data:");
        assert("data:"@ =~= data_scheme());
    }
    if !starts_with(&cs, "data:") {
        return None;
    }
    let mut after: Vec<char> = Vec::new();
    let mut k: usize = 5;
    while k < cs.len()
        invariant
            5 <= k <= cs@.len(),
            after@ == cs@.subrange(5, k as int),
        decreases cs@.len() - k,
    {
        after.push(cs[k]);
        assert(cs@.subrange(5, k + 1) =~= cs@.subrange(5, k as int).push(cs@[k as int]));
        k = k + 1;
    }
    assert(after@ =~= cs@.skip(5));
    let semi = match find_char(&after, ';') {
        Some(i) => i,
        None => return None,
    };
    let mut rest: Vec<char> = Vec::new();
    let mut k: usize = semi + 1;
    while k < after.len()
        invariant
            semi + 1 <= k <= after@.len(),
            rest@ == after@.subrange(semi + 1, k as int),
        decreases after@.len() - k,
    {
        rest.push(after[k]);
        assert(after@.subrange(semi + 1, k + 1) =~= after@.subrange(semi + 1, k as int).push(
            after@[k as int],
        ));
        k = k + 1;
    }
    assert(rest@ =~= after@.skip(semi + 1));
    let comma = match find_char(&rest, ',') {
        Some(j) => j,
        None => return None,
    };
    let format = string_from_range(&after, 0, semi);
    let payload = string_from_range(&rest, comma + 1, rest.len());
    assert(after@.subrange(0, semi as int) =~= after@.take(semi as int));
    assert(rest@.subrange(comma + 1, rest@.len() as int) =~= rest@.skip(comma + 1));
    Some((format, payload))
}

/// The value of a Base64 alphabet character.
pub open spec fn b64_value(c: char) -> Option<int> {
    if 'A' <= c <= 'Z' {
        Some(c as int - 'A' as int)
    } else if 'a' <= c <= 'z' {
        Some(c as int - 'a' as int + 26)
    } else if '0' <= c <= '9' {
        Some(c as int - '0' as int + 52)
    } else if c == '+' {
        Some(62)
    } else if c == '/' {
        Some(63)
    } else {
        None
    }
}

/// The 6-bit values of the characters of `s` before its first `=`, white
/// space skipped; `None` when another character is not in the alphabet.
pub open spec fn b64_sextets(s: Seq<char>) -> Option<Seq<int>>
    decreases s.len(),
{
    if s.len() == 0 {
        Some(seq![])
    } else if is_white_space(s[0]) {
        b64_sextets(s.drop_first())
    } else if s[0] == '=' {
        Some(seq![])
    } else {
        match b64_value(s[0]) {
            None => None,
            Some(v) => match b64_sextets(s.drop_first()) {
                Some(r) => Some(seq![v] + r),
                None => None,
            },
        }
    }
}

/// First byte of a group: 6 bits of `a` and the high 2 bits of `b`.
pub open spec fn b64_byte0(a: int, b: int) -> u8 {
    (a * 4 + b / 16) as u8
}

/// Second byte of a group: the low 4 bits of `b` and the high 4 bits of `c`.
pub open spec fn b64_byte1(b: int, c: int) -> u8 {
    ((b % 16) * 16 + c / 4) as u8
}

/// Third byte of a group: the low 2 bits of `c` and the 6 bits of `d`.
pub open spec fn b64_byte2(c: int, d: int) -> u8 {
    ((c % 4) * 64 + d) as u8
}

/// The bytes that 6-bit values spell, four values to three bytes; a final
/// group of two or three values gives one or two bytes, and bits left over
/// are dropped.
pub open spec fn sextets_to_bytes(v: Seq<int>) -> Seq<u8>
    decreases v.len(),
{
    if v.len() >= 4 {
        seq![b64_byte0(v[0], v[1]), b64_byte1(v[1], v[2]), b64_byte2(v[2], v[3])]
            + sextets_to_bytes(v.skip(4))
    } else if v.len() == 3 {
        seq![b64_byte0(v[0], v[1]), b64_byte1(v[1], v[2])]
    } else if v.len() == 2 {
        seq![b64_byte0(v[0], v[1])]
    } else {
        seq![]
    }
}

/// What decoding the Base64 text `s` gives.
pub open spec fn base64_decoded(s: Seq<char>) -> Option<Seq<u8>> {
    match b64_sextets(s) {
        Some(v) => Some(sextets_to_bytes(v)),
        None => None,
    }
}

/// The byte that appending `x` to the values `w` completes, if any.
pub open spec fn b64_tail(w: Seq<int>, x: int) -> Seq<u8> {
    if w.len() % 4 == 1 {
        seq![b64_byte0(w.last(), x)]
    } else if w.len() % 4 == 2 {
        seq![b64_byte1(w.last(), x)]
    } else if w.len() % 4 == 3 {
        seq![b64_byte2(w.last(), x)]
    } else {
        seq![]
    }
}

proof fn lemma_bytes_push(w: Seq<int>, x: int)
    ensures
        sextets_to_bytes(w.push(x)) == sextets_to_bytes(w) + b64_tail(w, x),
    decreases w.len(),
{
    let wx = w.push(x);
    if w.len() >= 4 {
        assert(wx.skip(4) =~= w.skip(4).push(x));
        lemma_bytes_push(w.skip(4), x);
        assert(w.skip(4).len() % 4 == w.len() % 4);
        if w.skip(4).len() > 0 {
            assert(w.skip(4).last() == w.last());
        }
        assert(sextets_to_bytes(wx) =~= sextets_to_bytes(w) + b64_tail(w, x));
    } else if w.len() == 3 {
        assert(wx.skip(4).len() == 0);
        assert(sextets_to_bytes(wx.skip(4)) =~= Seq::<u8>::empty());
        assert(wx[0] == w[0] && wx[1] == w[1] && wx[2] == w[2] && wx[3] == x);
        assert(sextets_to_bytes(wx) =~= sextets_to_bytes(w) + b64_tail(w, x));
    } else {
        assert(wx.len() == w.len() + 1);
        assert(forall|k: int| 0 <= k < w.len() ==> wx[k] == w[k]);
        assert(wx[w.len() as int] == x);
        if w.len() == 0 {
            assert(sextets_to_bytes(wx) =~= sextets_to_bytes(w) + b64_tail(w, x));
        } else if w.len() == 1 {
            assert(sextets_to_bytes(wx) =~= sextets_to_bytes(w) + b64_tail(w, x));
        } else {
            assert(sextets_to_bytes(wx) =~= sextets_to_bytes(w) + b64_tail(w, x));
        }
    }
}

fn b64_value_exec(c: char) -> (r: Option<u32>)
    ensures
        match r {
            Some(v) => b64_value(c) == Some(v as int) && v < 64,
            None => b64_value(c) is None,
        },
{
    let u = c as u32;
    if 'A' <= c && c <= 'Z' {
        Some(u - 65)
    } else if 'a' <= c && c <= 'z' {
        Some(u - 97 + 26)
    } else if '0' <= c && c <= '9' {
        Some(u - 48 + 52)
    } else if c == '+' {
        Some(62)
    } else if c == '/' {
        Some(63)
    } else {
        None
    }
}

/// `o` with `vs` put in front of the values it holds.
pub open spec fn prepend_sextets(vs: Seq<int>, o: Option<Seq<int>>) -> Option<Seq<int>> {
    match o {
        Some(r) => Some(vs + r),
        None => None,
    }
}

/// Decodes Base64 text; white space is skipped and decoding stops at the
/// first `=`.
pub fn base64_decode(input: &str) -> (r: Option<Vec<u8>>)
    ensures
        match r {
            Some(bytes) => base64_decoded(input@) == Some(bytes@),
            None => base64_decoded(input@) is None,
        },
{
    let cs = str_chars(input);
    let n = cs.len();
    let mut buf: Vec<u8> = Vec::new();
    let mut state: u32 = 0;
    let mut count: u32 = 0;
    let ghost mut vs: Seq<int> = seq![];
    assert(cs@.skip(0) =~= cs@);
    let mut i: usize = 0;
    while i < n
        invariant
            n == cs@.len(),
            cs@ == input@,
            0 <= i <= n,
            b64_sextets(cs@) == prepend_sextets(vs, b64_sextets(cs@.skip(i as int))),
            forall|k: int| 0 <= k < vs.len() ==> 0 <= #[trigger] vs[k] < 64,
            buf@ == sextets_to_bytes(vs),
            vs.len() % 4 == 0 ==> count == 0 && state == 0,
            vs.len() % 4 == 1 ==> count == 6 && state == vs.last(),
            vs.len() % 4 == 2 ==> count == 4 && state == vs.last() % 16,
            vs.len() % 4 == 3 ==> count == 2 && state == vs.last() % 4,
        decreases n - i,
    {
        let c = cs[i];
        let ghost rest = cs@.skip(i as int);
        assert(rest.drop_first() =~= cs@.skip(i + 1));
        assert(rest[0] == c);
        if is_whitespace(c) {
            i = i + 1;
        } else if c == '=' {
            assert(b64_sextets(rest) == Some(Seq::<int>::empty()));
            assert(vs + Seq::<int>::empty() =~= vs);
            return Some(buf);
        } else {
            let v = match b64_value_exec(c) {
                Some(v) => v,
                None => return None,
            };
            let ghost old_vs = vs;
            proof {
                lemma_bytes_push(vs, v as int);
                match b64_sextets(cs@.skip(i + 1)) {
                    Some(r) => {
                        assert(vs + (seq![v as int] + r) =~= vs.push(v as int) + r);
                    },
                    None => {},
                }
                vs = vs.push(v as int);
            }
            if count == 0 {
                state = v;
                count = 6;
            } else if count == 6 {
                let s = state * 64 + v;
                buf.push((s / 16) as u8);
                state = s % 16;
                count = 4;
                proof {
                    assert(s / 16 == old_vs.last() * 4 + v / 16) by (nonlinear_arith)
                        requires
                            s == old_vs.last() * 64 + v,
                            v < 64,
                    ;
                    assert(s % 16 == v % 16) by (nonlinear_arith)
                        requires
                            s == old_vs.last() * 64 + v,
                            v < 64,
                    ;
                }
            } else if count == 4 {
                let s = state * 64 + v;
                buf.push((s / 4) as u8);
                state = s % 4;
                count = 2;
                proof {
                    assert(s / 4 == (old_vs.last() % 16) * 16 + v / 4) by (nonlinear_arith)
                        requires
                            s == (old_vs.last() % 16) * 64 + v,
                            v < 64,
                    ;
                    assert(s % 4 == v % 4) by (nonlinear_arith)
                        requires
                            s == (old_vs.last() % 16) * 64 + v,
                            v < 64,
                    ;
                }
            } else {
                let s = state * 64 + v;
                buf.push(s as u8);
                state = 0;
                count = 0;
            }
            assert(vs.last() == v as int);
            assert(buf@ =~= sextets_to_bytes(vs));
            i = i + 1;
        }
    }
    assert(cs@.skip(n as int).len() == 0);
    assert(vs + Seq::<int>::empty() =~= vs);
    Some(buf)
}


/// The character of a 6-bit value in the standard Base64 alphabet
/// (RFC 4648): `A`-`Z`, `a`-`z`, `0`-`9`, `+`, `/`.
pub open spec fn b64_char(v: int) -> char {
    if v < 26 {
        ('A' as int + v) as char
    } else if v < 52 {
        ('a' as int + (v - 26)) as char
    } else if v < 62 {
        ('0' as int + (v - 52)) as char
    } else if v == 62 {
        '+'
    } else {
        '/'
    }
}

/// The 6-bit values of the standard Base64 encoding of `b` (RFC 4648),
/// padding left out: three bytes to four values, a last group of two or
/// one bytes to three or two values, unused bits zero.
pub open spec fn encode_sextets(b: Seq<u8>) -> Seq<int>
    decreases b.len(),
{
    if b.len() >= 3 {
        let (x, y, z) = (b[0] as int, b[1] as int, b[2] as int);
        seq![x / 4, (x % 4) * 16 + y / 16, (y % 16) * 4 + z / 64, z % 64] + encode_sextets(b.skip(3))
    } else if b.len() == 2 {
        let (x, y) = (b[0] as int, b[1] as int);
        seq![x / 4, (x % 4) * 16 + y / 16, (y % 16) * 4]
    } else if b.len() == 1 {
        let x = b[0] as int;
        seq![x / 4, (x % 4) * 16]
    } else {
        Seq::empty()
    }
}

/// The standard Base64 encoding of `b`, without padding.
pub open spec fn base64_encoding(b: Seq<u8>) -> Seq<char> {
    encode_sextets(b).map_values(|v: int| b64_char(v))
}

/// `n` padding characters `=`.
pub open spec fn b64_padding(n: nat) -> Seq<char> {
    Seq::new(n, |i: int| '=')
}

pub proof fn lemma_b64_char(v: int)
    requires
        0 <= v < 64,
    ensures
        b64_value(b64_char(v)) == Some(v),
        !is_white_space(b64_char(v)),
        b64_char(v) != '=',
{
}

pub proof fn lemma_encode_sextets_range(b: Seq<u8>)
    ensures
        forall|i: int| 0 <= i < encode_sextets(b).len() ==> 0 <= #[trigger] encode_sextets(b)[i] < 64,
    decreases b.len(),
{
    if b.len() >= 3 {
        lemma_encode_sextets_range(b.skip(3));
        assert forall|i: int| 0 <= i < encode_sextets(b).len() implies 0 <= #[trigger] encode_sextets(b)[i] < 64 by {
            if i >= 4 {
                assert(encode_sextets(b)[i] == encode_sextets(b.skip(3))[i - 4]);
            }
        }
    }
}

/// Decoding a group gives its bytes back.
proof fn lemma_group_bytes(x: int, y: int, z: int)
    requires
        0 <= x < 256,
        0 <= y < 256,
        0 <= z < 256,
    ensures
        b64_byte0(x / 4, (x % 4) * 16 + y / 16) == x,
        b64_byte1((x % 4) * 16 + y / 16, (y % 16) * 4 + z / 64) == y,
        b64_byte2((y % 16) * 4 + z / 64, z % 64) == z,
        b64_byte1((x % 4) * 16 + y / 16, (y % 16) * 4) == y,
{
    assert(((x % 4) * 16 + y / 16) / 16 == x % 4);
    assert(((x % 4) * 16 + y / 16) % 16 == y / 16);
    assert(((y % 16) * 4 + z / 64) / 4 == y % 16);
    assert(((y % 16) * 4 + z / 64) % 4 == z / 64);
    assert(((y % 16) * 4) / 4 == y % 16);
}

/// The values of an encoding spell the bytes it encodes.
pub proof fn lemma_encode_decode_bytes(b: Seq<u8>)
    ensures
        sextets_to_bytes(encode_sextets(b)) == b,
    decreases b.len(),
{
    let v = encode_sextets(b);
    if b.len() >= 3 {
        lemma_encode_decode_bytes(b.skip(3));
        lemma_group_bytes(b[0] as int, b[1] as int, b[2] as int);
        assert(v.skip(4) =~= encode_sextets(b.skip(3)));
        assert(b =~= seq![b[0], b[1], b[2]] + b.skip(3));
        assert(sextets_to_bytes(v) =~= b);
    } else if b.len() == 2 {
        lemma_group_bytes(b[0] as int, b[1] as int, 0);
        assert(sextets_to_bytes(v) =~= b);
    } else if b.len() == 1 {
        lemma_group_bytes(b[0] as int, 0, 0);
        assert(sextets_to_bytes(v) =~= b);
    } else {
        assert(sextets_to_bytes(v) =~= b);
    }
}

/// Reading the characters of Base64 values followed by padding gives the
/// values back.
pub proof fn lemma_sextets_of_chars(vals: Seq<int>, pad: nat)
    requires
        forall|i: int| 0 <= i < vals.len() ==> 0 <= #[trigger] vals[i] < 64,
    ensures
        b64_sextets(vals.map_values(|v: int| b64_char(v)) + b64_padding(pad)) == Some(vals),
    decreases vals.len(),
{
    let t = vals.map_values(|v: int| b64_char(v)) + b64_padding(pad);
    if vals.len() == 0 {
        if pad > 0 {
            assert(t[0] == '=');
            assert(!is_white_space('='));
        } else {
            assert(t =~= Seq::<char>::empty());
        }
        assert(vals =~= Seq::<int>::empty());
    } else {
        let rest = vals.drop_first();
        lemma_sextets_of_chars(rest, pad);
        lemma_b64_char(vals[0]);
        assert(t[0] == b64_char(vals[0]));
        assert(t.drop_first() =~= rest.map_values(|v: int| b64_char(v)) + b64_padding(pad));
        assert(vals =~= seq![vals[0]] + rest);
    }
}

/// White space does not change what Base64 text reads as.
pub proof fn lemma_sextets_skip_white_space(s: Seq<char>)
    ensures
        b64_sextets(s) == b64_sextets(s.filter(|c: char| !is_white_space(c))),
    decreases s.len(),
{
    let p = |c: char| !is_white_space(c);
    if s.len() == 0 {
        assert(s.filter(p) =~= s) by {
            reveal(Seq::filter);
        }
    } else {
        let rest = s.drop_first();
        lemma_sextets_skip_white_space(rest);
        rest.lemma_filter_prepend(s[0], p);
        assert(s =~= seq![s[0]] + rest);
        if !is_white_space(s[0]) {
            let f = s.filter(p);
            assert(f =~= seq![s[0]] + rest.filter(p));
            assert(f[0] == s[0]);
            assert(f.drop_first() =~= rest.filter(p));
        }
    }
}
} // verus!
