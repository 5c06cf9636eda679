//! Hex display encoding and hex input decoding.
//!
//! When the monitor is in hex display mode, received and sent bytes are shown
//! as two uppercase hexadecimal digits followed by a space, per byte.  When it
//! is in hex input mode, outbound text is stripped of spaces and read two
//! characters at a time as hexadecimal byte values; a malformed pair is
//! skipped, and an odd trailing character is dropped.

use vstd::prelude::*;

verus! {

/// An ASCII hexadecimal digit: `0`-`9`, `A`-`F` or `a`-`f`.
pub open spec fn is_hex_digit(b: u8) -> bool {
    (48 <= b && b <= 57) || (65 <= b && b <= 70) || (97 <= b && b <= 102)
}

/// Numeric value of an ASCII hexadecimal digit.
pub open spec fn hex_digit_value(b: u8) -> u8
    recommends
        is_hex_digit(b),
{
    if 48 <= b && b <= 57 {
        (b - 48) as u8
    } else if 65 <= b && b <= 70 {
        (b - 55) as u8
    } else if 97 <= b && b <= 102 {
        (b - 87) as u8
    } else {
        0
    }
}

/// Uppercase ASCII hexadecimal digit for a value below sixteen.
pub open spec fn hex_digit_char(v: u8) -> u8
    recommends
        v < 16,
{
    if v < 10 {
        (48 + v) as u8
    } else {
        (55 + v) as u8
    }
}

/// Display form of a byte sequence: per byte, the high digit, the low digit
/// and one space.
pub open spec fn hex_display_seq(b: Seq<u8>) -> Seq<u8>
    decreases b.len(),
{
    if b.len() == 0 {
        Seq::empty()
    } else {
        seq![
            hex_digit_char((b[0] / 16) as u8),
            hex_digit_char((b[0] % 16) as u8),
            32u8,
        ] + hex_display_seq(b.drop_first())
    }
}

/// The byte sequence with every ASCII space removed.
pub open spec fn strip_spaces(s: Seq<u8>) -> Seq<u8>
    decreases s.len(),
{
    if s.len() == 0 {
        Seq::empty()
    } else if s[0] == 32 {
        strip_spaces(s.drop_first())
    } else {
        seq![s[0]] + strip_spaces(s.drop_first())
    }
}

/// The bytes read from a space-free sequence two characters at a time: a pair
/// of hexadecimal digits yields one byte, any other pair is skipped, and a
/// trailing lone character is dropped.
pub open spec fn decode_pairs(s: Seq<u8>) -> Seq<u8>
    decreases s.len(),
{
    if s.len() < 2 {
        Seq::empty()
    } else {
        let rest = decode_pairs(s.skip(2));
        if is_hex_digit(s[0]) && is_hex_digit(s[1]) {
            seq![(hex_digit_value(s[0]) * 16 + hex_digit_value(s[1])) as u8] + rest
        } else {
            rest
        }
    }
}

/// The hex input reading of a text: spaces are stripped, then the remainder is
/// read in pairs.
pub open spec fn hex_input_seq(s: Seq<u8>) -> Seq<u8> {
    decode_pairs(strip_spaces(s))
}

fn hex_char_of(v: u8) -> (c: u8)
    requires
        v < 16,
    ensures
        c == hex_digit_char(v),
{
    if v < 10 {
        48 + v
    } else {
        55 + v
    }
}

/// Encodes bytes for display: two uppercase hexadecimal digits and a space per
/// byte.
pub fn encode_hex(data: &[u8]) -> (r: Vec<u8>)
    ensures
        r@ == hex_display_seq(data@),
{
    let mut r: Vec<u8> = Vec::new();
    let mut i: usize = 0;
    proof {
        assert(data@.skip(0) =~= data@);
        assert(r@ + hex_display_seq(data@) =~= hex_display_seq(data@));
    }
    while i < data.len()
        invariant
            i <= data@.len(),
            hex_display_seq(data@) == r@ + hex_display_seq(data@.skip(i as int)),
        decreases data@.len() - i,
    {
        let b = data[i];
        proof {
            let tail = data@.skip(i as int);
            assert(tail[0] == data@[i as int]);
            assert(tail.drop_first() =~= data@.skip(i as int + 1));
        }
        r.push(hex_char_of(b / 16));
        r.push(hex_char_of(b % 16));
        r.push(32);
        i = i + 1;
    }
    proof {
        assert(data@.skip(data@.len() as int) =~= Seq::<u8>::empty());
        assert(r@ =~= r@ + hex_display_seq(data@.skip(data@.len() as int)));
    }
    r
}

fn is_hex_digit_byte(b: u8) -> (r: bool)
    ensures
        r == is_hex_digit(b),
{
    (48 <= b && b <= 57) || (65 <= b && b <= 70) || (97 <= b && b <= 102)
}

fn hex_value_of(b: u8) -> (v: u8)
    requires
        is_hex_digit(b),
    ensures
        v == hex_digit_value(b),
        v < 16,
{
    if 48 <= b && b <= 57 {
        b - 48
    } else if 65 <= b && b <= 70 {
        b - 55
    } else {
        b - 87
    }
}

/// Decodes hex input text: strips spaces, then reads the remainder two
/// characters at a time, skipping malformed pairs and a trailing lone
/// character.
pub fn decode_hex(text: &[u8]) -> (r: Vec<u8>)
    ensures
        r@ == hex_input_seq(text@),
{
    let mut stripped: Vec<u8> = Vec::new();
    let mut i: usize = 0;
    proof {
        assert(text@.skip(0) =~= text@);
        assert(stripped@ + strip_spaces(text@) =~= strip_spaces(text@));
    }
    while i < text.len()
        invariant
            i <= text@.len(),
            strip_spaces(text@) == stripped@ + strip_spaces(text@.skip(i as int)),
        decreases text@.len() - i,
    {
        let b = text[i];
        proof {
            let tail = text@.skip(i as int);
            assert(tail[0] == text@[i as int]);
            assert(tail.drop_first() =~= text@.skip(i as int + 1));
        }
        if b != 32 {
            stripped.push(b);
        }
        i = i + 1;
    }
    proof {
        assert(text@.skip(text@.len() as int) =~= Seq::<u8>::empty());
        assert(stripped@ =~= stripped@ + strip_spaces(text@.skip(text@.len() as int)));
    }

    let mut out: Vec<u8> = Vec::new();
    let mut j: usize = 0;
    proof {
        assert(stripped@.skip(0) =~= stripped@);
        assert(out@ + decode_pairs(stripped@) =~= decode_pairs(stripped@));
    }
    while j < stripped.len() && stripped.len() - j >= 2
        invariant
            j <= stripped@.len(),
            decode_pairs(stripped@) == out@ + decode_pairs(stripped@.skip(j as int)),
        decreases stripped@.len() - j,
    {
        let hi = stripped[j];
        let lo = stripped[j + 1];
        proof {
            let tail = stripped@.skip(j as int);
            assert(tail[0] == stripped@[j as int]);
            assert(tail[1] == stripped@[j as int + 1]);
            assert(tail.skip(2) =~= stripped@.skip(j as int + 2));
        }
        if is_hex_digit_byte(hi) && is_hex_digit_byte(lo) {
            out.push(hex_value_of(hi) * 16 + hex_value_of(lo));
        }
        j = j + 2;
    }
    proof {
        assert(stripped@.skip(j as int).len() < 2);
        assert(out@ =~= out@ + decode_pairs(stripped@.skip(j as int)));
    }
    out
}

proof fn lemma_strip_spaces_concat(a: Seq<u8>, b: Seq<u8>)
    ensures
        strip_spaces(a + b) == strip_spaces(a) + strip_spaces(b),
    decreases a.len(),
{
    if a.len() == 0 {
        assert(a + b =~= b);
        assert(strip_spaces(a) + strip_spaces(b) =~= strip_spaces(b));
    } else {
        assert((a + b)[0] == a[0]);
        assert((a + b).drop_first() =~= a.drop_first() + b);
        lemma_strip_spaces_concat(a.drop_first(), b);
        if a[0] == 32 {
        } else {
            assert(seq![a[0]] + (strip_spaces(a.drop_first()) + strip_spaces(b)) =~= (seq![a[0]]
                + strip_spaces(a.drop_first())) + strip_spaces(b));
        }
    }
}

/// Encoding a byte sequence for hex display and reading the result back as
/// hex input reproduces the original bytes exactly: no pair is malformed and
/// nothing is dropped.
pub proof fn lemma_hex_round_trip(b: Seq<u8>)
    ensures
        hex_input_seq(hex_display_seq(b)) == b,
    decreases b.len(),
{
    if b.len() == 0 {
        assert(strip_spaces(hex_display_seq(b)) =~= Seq::<u8>::empty());
    } else {
        assert(b[0] / 16 < 16 && b[0] % 16 < 16);
        let hi = hex_digit_char((b[0] / 16) as u8);
        let lo = hex_digit_char((b[0] % 16) as u8);
        assert(48 <= hi && 48 <= lo);
        let head = seq![hi, lo, 32u8];
        let tail = hex_display_seq(b.drop_first());
        assert(hex_display_seq(b) == head + tail);
        lemma_strip_spaces_concat(head, tail);
        assert(strip_spaces(head) =~= seq![hi, lo]) by {
            let t1 = seq![lo, 32u8];
            let t2 = seq![32u8];
            assert(head.drop_first() =~= t1);
            assert(t1.drop_first() =~= t2);
            assert(t2.drop_first() =~= Seq::<u8>::empty());
            assert(strip_spaces(Seq::<u8>::empty()) =~= Seq::<u8>::empty());
            assert(strip_spaces(t2) =~= Seq::<u8>::empty());
            assert(strip_spaces(t1) =~= seq![lo]);
            assert(strip_spaces(head) =~= seq![hi] + seq![lo]);
        }
        lemma_hex_round_trip(b.drop_first());
        let s = strip_spaces(hex_display_seq(b));
        assert(s =~= seq![hi, lo] + strip_spaces(tail));
        assert(s[0] == hi && s[1] == lo);
        assert(s.skip(2) =~= strip_spaces(tail));
        assert(is_hex_digit(hi) && is_hex_digit(lo));
        assert(hex_digit_value(hi) == b[0] / 16 && hex_digit_value(lo) == b[0] % 16);
        assert((hex_digit_value(hi) * 16 + hex_digit_value(lo)) as u8 == b[0]);
        assert(decode_pairs(s) =~= seq![b[0]] + decode_pairs(strip_spaces(tail)));
        assert(seq![b[0]] + b.drop_first() =~= b);
    }
}

} // verus!
