//! Telemetry line parser.
//!
//! A line carries one telemetry frame when, after trimming, it starts with the
//! marker `Pace: FL:` and exactly four of its whitespace-separated tokens are
//! numeric.  The numeric tokens are collected in order, wherever they stand on
//! the line; a line with any other count of numeric tokens is discarded whole,
//! so a truncated frame can never misalign the channels.
//!
//! A token counts as numeric when it matches the grammar of a decimal floating
//! point number: an optional sign, then either one of the words `inf`,
//! `infinity` or `nan` (case-insensitive), or a mantissa holding at least one
//! digit and at most one dot, optionally followed by an exponent marker `e` or
//! `E` with an optional sign and at least one digit.  Values are handed on as
//! their unparsed tokens; the rendering layer alone converts them to machine
//! floating point.

use vstd::prelude::*;

verus! {

/// ASCII whitespace: space, tab, line feed, vertical tab, form feed, carriage
/// return.
pub open spec fn is_space(b: u8) -> bool {
    b == 32 || b == 9 || b == 10 || b == 11 || b == 12 || b == 13
}

/// ASCII decimal digit.
pub open spec fn is_digit(b: u8) -> bool {
    48 <= b && b <= 57
}

/// ASCII lowercasing of a single byte.
pub open spec fn to_lower(b: u8) -> u8 {
    if 65 <= b && b <= 90 {
        (b + 32) as u8
    } else {
        b
    }
}

/// An exponent marker.
pub open spec fn is_e(b: u8) -> bool {
    b == 101 || b == 69
}

/// The token without its leading sign, if it has one.
pub open spec fn strip_sign(t: Seq<u8>) -> Seq<u8> {
    if t.len() > 0 && (t[0] == 43 || t[0] == 45) {
        t.drop_first()
    } else {
        t
    }
}

/// One of the words `inf`, `infinity` or `nan`, case-insensitive.
pub open spec fn is_special(u: Seq<u8>) -> bool {
    ||| (u.len() == 3 && to_lower(u[0]) == 105 && to_lower(u[1]) == 110 && to_lower(u[2]) == 102)
    ||| (u.len() == 8 && to_lower(u[0]) == 105 && to_lower(u[1]) == 110 && to_lower(u[2]) == 102
        && to_lower(u[3]) == 105 && to_lower(u[4]) == 110 && to_lower(u[5]) == 105 && to_lower(
        u[6],
    ) == 116 && to_lower(u[7]) == 121)
    ||| (u.len() == 3 && to_lower(u[0]) == 110 && to_lower(u[1]) == 97 && to_lower(u[2]) == 110)
}

/// A mantissa: only digits and dots, at least one digit, at most one dot.
pub open spec fn is_mantissa(m: Seq<u8>) -> bool {
    &&& (forall|q: int| 0 <= q < m.len() ==> is_digit(m[q]) || m[q] == 46)
    &&& (exists|q: int| 0 <= q < m.len() && is_digit(m[q]))
    &&& (forall|a: int, b: int| 0 <= a < b < m.len() ==> !(m[a] == 46 && m[b] == 46))
}

/// An exponent after its marker: an optional sign, then at least one digit.
pub open spec fn is_exp_tail(w: Seq<u8>) -> bool {
    let v = strip_sign(w);
    v.len() > 0 && (forall|q: int| 0 <= q < v.len() ==> is_digit(v[q]))
}

/// Position of the first exponent marker at or after `i`, or the length when
/// there is none.
pub open spec fn first_e(u: Seq<u8>, i: int) -> int
    recommends
        0 <= i <= u.len(),
    decreases u.len() - i,
    when 0 <= i <= u.len()
{
    if i >= u.len() {
        i
    } else if is_e(u[i]) {
        i
    } else {
        first_e(u, i + 1)
    }
}

/// An unsigned number: a mantissa, optionally followed by an exponent.  The
/// split is taken at the first exponent marker; this loses nothing, because a
/// mantissa can hold no marker, so no other split can satisfy the grammar.
pub open spec fn is_number(u: Seq<u8>) -> bool {
    let p = first_e(u, 0);
    if p == u.len() {
        is_mantissa(u)
    } else {
        is_mantissa(u.take(p)) && is_exp_tail(u.skip(p + 1))
    }
}

/// A numeric token: an optional sign, then a special word or an unsigned
/// number.
pub open spec fn is_float_token(t: Seq<u8>) -> bool {
    is_special(strip_sign(t)) || is_number(strip_sign(t))
}

/// End of the whitespace run starting at `i`: the first non-whitespace
/// position at or after `i`, or the length.
pub open spec fn ws_end(s: Seq<u8>, i: int) -> int
    recommends
        0 <= i <= s.len(),
    decreases s.len() - i,
    when 0 <= i <= s.len()
{
    if i >= s.len() {
        i
    } else if is_space(s[i]) {
        ws_end(s, i + 1)
    } else {
        i
    }
}

/// End of the token starting at `i`: the first whitespace position at or
/// after `i`, or the length.
pub open spec fn token_end(s: Seq<u8>, i: int) -> int
    recommends
        0 <= i <= s.len(),
    decreases s.len() - i,
    when 0 <= i <= s.len()
{
    if i < s.len() && !is_space(s[i]) {
        token_end(s, i + 1)
    } else {
        i
    }
}

proof fn lemma_token_end_bounds(s: Seq<u8>, i: int)
    requires
        0 <= i <= s.len(),
    ensures
        i <= token_end(s, i) <= s.len(),
    decreases s.len() - i,
{
    if i < s.len() && !is_space(s[i]) {
        lemma_token_end_bounds(s, i + 1);
    }
}

/// The numeric tokens of the line from position `i` on, in order.
pub open spec fn float_values(s: Seq<u8>, i: int) -> Seq<Seq<u8>>
    recommends
        0 <= i <= s.len(),
    decreases s.len() - i,
    when 0 <= i <= s.len()
    via float_values_dec
{
    if i >= s.len() {
        Seq::empty()
    } else if is_space(s[i]) {
        float_values(s, i + 1)
    } else {
        let j = token_end(s, i);
        let tok = s.subrange(i, j);
        if is_float_token(tok) {
            seq![tok] + float_values(s, j)
        } else {
            float_values(s, j)
        }
    }
}

#[via_fn]
proof fn float_values_dec(s: Seq<u8>, i: int) {
    if 0 <= i && i <= s.len() && i < s.len() && !is_space(s[i]) {
        lemma_token_end_bounds(s, i + 1);
    }
}

/// The marker `Pace: FL:` that opens a telemetry line.
pub open spec fn prefix_seq() -> Seq<u8> {
    seq![80u8, 97u8, 99u8, 101u8, 58u8, 32u8, 70u8, 76u8, 58u8]
}

/// The line, once trimmed of leading whitespace, begins with the marker.
pub open spec fn line_recognized(s: Seq<u8>) -> bool {
    let b = ws_end(s, 0);
    b + 9 <= s.len() && s.subrange(b, b + 9) == prefix_seq()
}

/// The line carries a telemetry frame: it is recognized and holds exactly
/// four numeric tokens.
pub open spec fn parsed_frame(s: Seq<u8>) -> bool {
    line_recognized(s) && float_values(s, 0).len() == 4
}

proof fn lemma_ws_end_from(s: Seq<u8>, i: int, p: int)
    requires
        0 <= i <= p <= s.len(),
        forall|q: int| i <= q < p ==> is_space(s[q]),
        p == s.len() || !is_space(s[p]),
    ensures
        ws_end(s, i) == p,
    decreases p - i,
{
    if i < p {
        lemma_ws_end_from(s, i + 1, p);
    }
}

proof fn lemma_token_end_from(s: Seq<u8>, i: int, p: int)
    requires
        0 <= i <= p <= s.len(),
        forall|q: int| i <= q < p ==> !is_space(s[q]),
        p == s.len() || is_space(s[p]),
    ensures
        token_end(s, i) == p,
    decreases p - i,
{
    if i < p {
        lemma_token_end_from(s, i + 1, p);
    }
}

proof fn lemma_first_e_from(u: Seq<u8>, i: int, p: int)
    requires
        0 <= i <= p <= u.len(),
        forall|q: int| i <= q < p ==> !is_e(u[q]),
        p == u.len() || is_e(u[p]),
    ensures
        first_e(u, i) == p,
    decreases p - i,
{
    if i < p {
        lemma_first_e_from(u, i + 1, p);
    }
}

/// One parsed telemetry frame: the four numeric tokens of a line, in channel
/// order front-left, front-right, rear-left, rear-right.
pub struct Frame {
    pub fl: Vec<u8>,
    pub fr: Vec<u8>,
    pub rl: Vec<u8>,
    pub rr: Vec<u8>,
}

fn is_space_byte(b: u8) -> (r: bool)
    ensures
        r == is_space(b),
{
    b == 32 || b == 9 || b == 10 || b == 11 || b == 12 || b == 13
}

fn is_digit_byte(b: u8) -> (r: bool)
    ensures
        r == is_digit(b),
{
    48 <= b && b <= 57
}

fn lower_byte(b: u8) -> (r: u8)
    ensures
        r == to_lower(b),
{
    if 65 <= b && b <= 90 {
        b + 32
    } else {
        b
    }
}

/// Whether the token matches the floating point grammar.
#[verifier::rlimit(80)]
pub fn is_numeric_token(tok: &[u8]) -> (r: bool)
    ensures
        r == is_float_token(tok@),
{
    let n = tok.len();
    let start: usize = if n > 0 && (tok[0] == 43 || tok[0] == 45) {
        1
    } else {
        0
    };
    let ghost u = strip_sign(tok@);
    proof {
        assert(u =~= tok@.skip(start as int));
    }
    let rest = n - start;

    // special words: inf, infinity, nan
    let special: bool = if rest == 3 {
        let a = lower_byte(tok[start]);
        let b = lower_byte(tok[start + 1]);
        let c = lower_byte(tok[start + 2]);
        (a == 105 && b == 110 && c == 102) || (a == 110 && b == 97 && c == 110)
    } else if rest == 8 {
        lower_byte(tok[start]) == 105 && lower_byte(tok[start + 1]) == 110 && lower_byte(
            tok[start + 2],
        ) == 102 && lower_byte(tok[start + 3]) == 105 && lower_byte(tok[start + 4]) == 110
            && lower_byte(tok[start + 5]) == 105 && lower_byte(tok[start + 6]) == 116 && lower_byte(
            tok[start + 7],
        ) == 121
    } else {
        false
    };
    assert(special == is_special(u));
    if special {
        return true;
    }

    // find the first exponent marker
    let mut epos: usize = start;
    while epos < n && !(tok[epos] == 101 || tok[epos] == 69)
        invariant
            start <= epos <= n,
            n == tok@.len(),
            forall|q: int| start <= q < epos ==> !is_e(tok@[q]),
        decreases n - epos,
    {
        epos = epos + 1;
    }
    let ghost p = (epos - start) as int;
    proof {
        assert(forall|q: int| 0 <= q < p ==> u[q] == tok@[start + q]);
        lemma_first_e_from(u, 0, p);
    }

    // mantissa: tok[start .. epos]
    let mut ok = true;
    let mut seen_digit = false;
    let mut seen_dot = false;
    let mut two_dots = false;
    let mut k: usize = start;
    while k < epos
        invariant
            start <= k <= epos <= n,
            n == tok@.len(),
            ok == (forall|q: int| start <= q < k ==> is_digit(tok@[q]) || tok@[q] == 46),
            seen_digit == (exists|q: int| start <= q < k && is_digit(tok@[q])),
            seen_dot == (exists|q: int| start <= q < k && tok@[q] == 46),
            two_dots == (exists|a: int, b: int|
                start <= a < b < k && tok@[a] == 46 && tok@[b] == 46),
        decreases epos - k,
    {
        let b = tok[k];
        if is_digit_byte(b) {
            seen_digit = true;
        } else if b == 46 {
            if seen_dot {
                two_dots = true;
            }
            seen_dot = true;
        } else {
            ok = false;
        }
        k = k + 1;
    }
    let mantissa_ok = ok && seen_digit && !two_dots;
    let ghost m = u.take(p);
    proof {
        assert(m.len() == p);
        assert(forall|q: int| 0 <= q < p ==> #[trigger] m[q] == tok@[start + q]);
        if mantissa_ok {
            assert forall|q: int| 0 <= q < m.len() implies is_digit(m[q]) || m[q] == 46 by {
                assert(m[q] == tok@[start + q]);
            }
            let w = choose|q: int| start <= q < epos && is_digit(tok@[q]);
            assert(is_digit(m[w - start]));
            assert forall|a: int, c: int| 0 <= a < c < m.len() implies !(m[a] == 46 && m[c]
                == 46) by {
                assert(m[a] == tok@[start + a] && m[c] == tok@[start + c]);
            }
            assert(is_mantissa(m));
        } else {
            if !ok {
                let q0 = choose|q: int| start <= q < epos && !(is_digit(tok@[q]) || tok@[q] == 46);
                assert(!(is_digit(m[q0 - start]) || m[q0 - start] == 46));
                assert(!is_mantissa(m));
            } else if !seen_digit {
                assert forall|q: int| 0 <= q < m.len() implies !is_digit(m[q]) by {
                    assert(m[q] == tok@[start + q]);
                }
                assert(!is_mantissa(m));
            } else {
                let (a, c) = choose|a: int, c: int|
                    start <= a < c < epos && tok@[a] == 46 && tok@[c] == 46;
                assert(m[a - start] == 46 && m[c - start] == 46);
                assert(!is_mantissa(m));
            }
        }
        assert(mantissa_ok == is_mantissa(m));
    }

    // exponent: tok[epos + 1 ..], when there is a marker
    if epos == n {
        proof {
            assert(p == u.len());
        }
        return mantissa_ok;
    }
    let ghost w = u.skip(p + 1);
    proof {
        assert(w =~= tok@.skip(epos as int + 1));
    }
    let estart: usize = if epos + 1 < n && (tok[epos + 1] == 43 || tok[epos + 1] == 45) {
        epos + 2
    } else {
        epos + 1
    };
    let ghost v = strip_sign(w);
    proof {
        assert(v =~= tok@.skip(estart as int));
    }
    if estart == n {
        assert(!is_exp_tail(w));
        return false;
    }
    let mut digits_ok = true;
    let mut k2: usize = estart;
    while k2 < n
        invariant
            estart <= k2 <= n,
            n == tok@.len(),
            digits_ok == (forall|q: int| estart <= q < k2 ==> is_digit(tok@[q])),
        decreases n - k2,
    {
        if !is_digit_byte(tok[k2]) {
            digits_ok = false;
        }
        k2 = k2 + 1;
    }
    proof {
        assert(v.len() == n - estart);
        assert(forall|q: int| 0 <= q < v.len() ==> #[trigger] v[q] == tok@[estart + q]);
        if digits_ok {
            assert forall|q: int| 0 <= q < v.len() implies is_digit(v[q]) by {
                assert(v[q] == tok@[estart + q]);
            }
        } else {
            let q0 = choose|q: int| estart <= q < n && !is_digit(tok@[q]);
            assert(v[q0 - estart] == tok@[q0]);
            assert(!is_digit(v[q0 - estart]));
        }
        assert(digits_ok == (forall|q: int| 0 <= q < v.len() ==> is_digit(v[q])));
    }
    mantissa_ok && digits_ok
}

/// Parses one received line.  Returns the frame exactly when the trimmed line
/// begins with the marker `Pace: FL:` and exactly four of its
/// whitespace-separated tokens are numeric; a line with any other count of
/// numeric tokens, or without the marker, yields nothing.
pub fn parse_line(line: &[u8]) -> (r: Option<Frame>)
    ensures
        match r {
            Some(f) => {
                &&& parsed_frame(line@)
                &&& f.fl@ == float_values(line@, 0)[0]
                &&& f.fr@ == float_values(line@, 0)[1]
                &&& f.rl@ == float_values(line@, 0)[2]
                &&& f.rr@ == float_values(line@, 0)[3]
            },
            None => !parsed_frame(line@),
        },
{
    let n = line.len();

    // trim: find the first non-whitespace position
    let mut b: usize = 0;
    while b < n && is_space_byte(line[b])
        invariant
            0 <= b <= n,
            n == line@.len(),
            forall|q: int| 0 <= q < b ==> is_space(line@[q]),
        decreases n - b,
    {
        b = b + 1;
    }
    proof {
        lemma_ws_end_from(line@, 0, b as int);
    }

    // the marker
    if n - b < 9 {
        return None;
    }
    let marker = line[b] == 80 && line[b + 1] == 97 && line[b + 2] == 99 && line[b + 3] == 101
        && line[b + 4] == 58 && line[b + 5] == 32 && line[b + 6] == 70 && line[b + 7] == 76 && line[b
        + 8] == 58;
    proof {
        let sub = line@.subrange(b as int, b as int + 9);
        assert(forall|q: int| 0 <= q < 9 ==> sub[q] == line@[b + q]);
        if marker {
            assert(sub =~= prefix_seq());
        } else {
            assert(sub != prefix_seq());
        }
    }
    if !marker {
        return None;
    }

    // collect the numeric tokens
    let mut toks: Vec<Vec<u8>> = Vec::new();
    let mut i: usize = 0;
    proof {
        assert(toks.deep_view() + float_values(line@, 0) =~~= float_values(line@, 0));
    }
    while i < n
        invariant
            0 <= i <= n,
            n == line@.len(),
            float_values(line@, 0) == toks.deep_view() + float_values(line@, i as int),
        decreases n - i,
    {
        if is_space_byte(line[i]) {
            i = i + 1;
        } else {
            let mut j: usize = i + 1;
            while j < n && !is_space_byte(line[j])
                invariant
                    i < j <= n,
                    n == line@.len(),
                    !is_space(line@[i as int]),
                    forall|q: int| i <= q < j ==> !is_space(line@[q]),
                decreases n - j,
            {
                j = j + 1;
            }
            proof {
                lemma_token_end_from(line@, i as int, j as int);
            }
            let tok = vstd::slice::slice_subrange(line, i, j);
            let ghost pre = toks.deep_view();
            if is_numeric_token(tok) {
                toks.push(vstd::slice::slice_to_vec(tok));
                proof {
                    assert(toks.deep_view() =~~= pre.push(tok@));
                    assert(pre.push(tok@) + float_values(line@, j as int) =~~= pre + (seq![tok@]
                        + float_values(line@, j as int)));
                }
            }
            i = j;
        }
    }
    proof {
        assert(float_values(line@, n as int) =~= Seq::<Seq<u8>>::empty());
        assert(toks.deep_view() + float_values(line@, n as int) =~~= toks.deep_view());
    }

    if toks.len() != 4 {
        return None;
    }
    let rr = toks.pop().unwrap();
    let rl = toks.pop().unwrap();
    let fr = toks.pop().unwrap();
    let fl = toks.pop().unwrap();
    proof {
        let vals = float_values(line@, 0);
        assert(fl@ == vals[0] && fr@ == vals[1] && rl@ == vals[2] && rr@ == vals[3]);
    }
    Some(Frame { fl, fr, rl, rr })
}

} // verus!
