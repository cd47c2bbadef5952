//! The serial text codec.
//!
//! A frame cycle is sent as one text line: every ring color rendered as
//! exactly six uppercase hexadecimal characters (two per channel, red, green,
//! blue), concatenated without separators and terminated by one newline byte.
//! The decoder reads such a line back by splitting it into six-character
//! groups; encoding and decoding round-trip exactly.

use vstd::prelude::*;
use crate::color::Rgb8;

verus! {

/// The uppercase hex digit of a value below 16, as an ASCII byte.
pub open spec fn hex_digit(v: int) -> u8 {
    if v < 10 {
        (48 + v) as u8
    } else {
        (55 + v) as u8
    }
}

/// The byte is an ASCII digit or an uppercase letter `A` through `F`.
pub open spec fn is_hex_digit(d: u8) -> bool {
    (48 <= d <= 57) || (65 <= d <= 70)
}

/// The value of an uppercase hex digit byte.
pub open spec fn hex_val(d: u8) -> int {
    if d <= 57 {
        d - 48
    } else {
        d - 55
    }
}

/// A hex digit carries its value: encoding a value below 16 yields a valid
/// digit that decodes back to the value.
pub proof fn lemma_hex_digit_val(v: int)
    requires
        0 <= v < 16,
    ensures
        is_hex_digit(hex_digit(v)),
        hex_val(hex_digit(v)) == v,
{
}

/// The six hex characters of one color: two per channel, red, green, blue.
pub open spec fn spec_color_hex(c: Rgb8) -> Seq<u8> {
    seq![
        hex_digit(c.r as int / 16),
        hex_digit(c.r as int % 16),
        hex_digit(c.g as int / 16),
        hex_digit(c.g as int % 16),
        hex_digit(c.b as int / 16),
        hex_digit(c.b as int % 16),
    ]
}

/// The hex rendering of a whole ring: the colors' hex groups, concatenated in
/// ring order with no separator.
pub open spec fn spec_encode(ring: Seq<Rgb8>) -> Seq<u8>
    decreases ring.len(),
{
    if ring.len() == 0 {
        Seq::empty()
    } else {
        spec_color_hex(ring[0]) + spec_encode(ring.skip(1))
    }
}

/// One serial frame: the hex rendering of the ring, terminated by a newline.
pub open spec fn spec_line(ring: Seq<Rgb8>) -> Seq<u8> {
    spec_encode(ring) + seq![10u8]
}

/// The encoding of a ring is six bytes per color.
pub proof fn lemma_encode_len(ring: Seq<Rgb8>)
    ensures
        spec_encode(ring).len() == 6 * ring.len(),
    decreases ring.len(),
{
    if ring.len() > 0 {
        lemma_encode_len(ring.skip(1));
    }
}

/// Appending one color to the ring appends its six hex characters to the
/// encoding.
pub proof fn lemma_encode_push(ring: Seq<Rgb8>, c: Rgb8)
    ensures
        spec_encode(ring.push(c)) == spec_encode(ring) + spec_color_hex(c),
    decreases ring.len(),
{
    if ring.len() == 0 {
        assert(ring.push(c).skip(1) =~= Seq::<Rgb8>::empty());
        assert(spec_encode(Seq::<Rgb8>::empty()) =~= Seq::<u8>::empty());
        assert(spec_encode(ring.push(c)) =~= spec_encode(ring) + spec_color_hex(c));
    } else {
        assert(ring.push(c).skip(1) =~= ring.skip(1).push(c));
        lemma_encode_push(ring.skip(1), c);
        assert(spec_encode(ring.push(c)) =~= spec_encode(ring) + spec_color_hex(c));
    }
}

/// The uppercase hex digit of a value below 16.
fn hex_digit_exec(v: u8) -> (d: u8)
    requires
        v < 16,
    ensures
        d == hex_digit(v as int),
{
    if v < 10 {
        48 + v
    } else {
        55 + v
    }
}

/// Appends the six hex characters of one color.
fn push_color_hex(line: &mut Vec<u8>, c: Rgb8)
    ensures
        final(line)@ == old(line)@ + spec_color_hex(c),
{
    line.push(hex_digit_exec(c.r / 16));
    line.push(hex_digit_exec(c.r % 16));
    line.push(hex_digit_exec(c.g / 16));
    line.push(hex_digit_exec(c.g % 16));
    line.push(hex_digit_exec(c.b / 16));
    line.push(hex_digit_exec(c.b % 16));
    proof {
        assert(line@ =~= old(line)@ + spec_color_hex(c));
    }
}

/// Renders a ring as one serial frame: six uppercase hex characters per
/// color in ring order, and one final newline byte.
pub fn encode_line(ring: &Vec<Rgb8>) -> (line: Vec<u8>)
    ensures
        line@ == spec_line(ring@),
{
    let mut line: Vec<u8> = Vec::new();
    let mut i: usize = 0;
    while i < ring.len()
        invariant
            i <= ring.len(),
            line@ == spec_encode(ring@.take(i as int)),
        decreases ring.len() - i,
    {
        push_color_hex(&mut line, ring[i]);
        proof {
            assert(ring@.take(i + 1) =~= ring@.take(i as int).push(ring@[i as int]));
            lemma_encode_push(ring@.take(i as int), ring@[i as int]);
        }
        i = i + 1;
    }
    proof {
        assert(ring@.take(ring@.len() as int) =~= ring@);
    }
    line.push(10);
    proof {
        assert(line@ =~= spec_line(ring@));
    }
    line
}

/// The color read from the first six bytes of a hex run.
pub open spec fn spec_color_of_hex(s: Seq<u8>) -> Rgb8 {
    Rgb8 {
        r: (16 * hex_val(s[0]) + hex_val(s[1])) as u8,
        g: (16 * hex_val(s[2]) + hex_val(s[3])) as u8,
        b: (16 * hex_val(s[4]) + hex_val(s[5])) as u8,
    }
}

/// The ring read back from a hex run: `None` unless the run is a whole number
/// of six-character groups of hex digits.
pub open spec fn spec_decode(s: Seq<u8>) -> Option<Seq<Rgb8>>
    decreases s.len(),
{
    if s.len() == 0 {
        Some(Seq::empty())
    } else if s.len() < 6 {
        None
    } else if !(is_hex_digit(s[0]) && is_hex_digit(s[1]) && is_hex_digit(s[2]) && is_hex_digit(
        s[3],
    ) && is_hex_digit(s[4]) && is_hex_digit(s[5])) {
        None
    } else {
        match spec_decode(s.skip(6)) {
            Some(rest) => Some(seq![spec_color_of_hex(s)] + rest),
            None => None,
        }
    }
}

/// Encoding round-trips: decoding the hex rendering of any ring yields
/// exactly that ring.
pub proof fn lemma_round_trip(ring: Seq<Rgb8>)
    ensures
        spec_decode(spec_encode(ring)) == Some(ring),
    decreases ring.len(),
{
    lemma_encode_len(ring);
    if ring.len() == 0 {
        assert(ring =~= Seq::<Rgb8>::empty());
    } else {
        let enc = spec_encode(ring);
        let c = ring[0];
        lemma_encode_len(ring.skip(1));
        lemma_hex_digit_val(c.r as int / 16);
        lemma_hex_digit_val(c.r as int % 16);
        lemma_hex_digit_val(c.g as int / 16);
        lemma_hex_digit_val(c.g as int % 16);
        lemma_hex_digit_val(c.b as int / 16);
        lemma_hex_digit_val(c.b as int % 16);
        assert(enc.skip(6) =~= spec_encode(ring.skip(1)));
        lemma_round_trip(ring.skip(1));
        assert(spec_color_of_hex(enc) == c);
        assert(seq![c] + ring.skip(1) =~= ring);
    }
}

/// A serial frame round-trips: it ends in the newline, and decoding what
/// stands before the newline yields exactly the ring it was made from.
pub proof fn lemma_line_round_trip(ring: Seq<Rgb8>)
    ensures
        spec_line(ring).len() == 6 * ring.len() + 1,
        spec_line(ring).last() == 10u8,
        spec_decode(spec_line(ring).drop_last()) == Some(ring),
{
    lemma_encode_len(ring);
    assert(spec_line(ring).drop_last() =~= spec_encode(ring));
    lemma_round_trip(ring);
}

/// Whether the byte is an uppercase hex digit.
fn is_hex_digit_exec(d: u8) -> (r: bool)
    ensures
        r == is_hex_digit(d),
{
    (48 <= d && d <= 57) || (65 <= d && d <= 70)
}

/// The value of an uppercase hex digit byte.
fn hex_val_exec(d: u8) -> (v: u8)
    requires
        is_hex_digit(d),
    ensures
        v == hex_val(d),
        v < 16,
{
    if d <= 57 {
        d - 48
    } else {
        d - 55
    }
}

/// Reads a serial frame back: `Some` exactly when the line is a newline-
/// terminated whole number of six-character hex groups, and then the colors
/// those groups spell, in order.
pub fn decode_line(line: &Vec<u8>) -> (r: Option<Vec<Rgb8>>)
    ensures
        r is Some <==> (line@.len() >= 1 && line@.last() == 10u8 && spec_decode(
            line@.drop_last(),
        ) is Some),
        r matches Some(v) ==> Some(v@) == spec_decode(line@.drop_last()),
{
    if line.len() == 0 {
        return None;
    }
    if line[line.len() - 1] != 10 {
        return None;
    }
    let body_len: usize = line.len() - 1;
    let ghost body = line@.drop_last();
    let mut colors: Vec<Rgb8> = Vec::new();
    let mut i: usize = 0;
    proof {
        assert(body.skip(0) =~= body);
        assert forall|rest: Seq<Rgb8>| true implies Seq::<Rgb8>::empty() + rest =~= rest by {}
    }
    while body_len - i >= 6
        invariant
            i <= body_len,
            i % 6 == 0,
            body_len + 1 == line@.len(),
            body == line@.drop_last(),
            spec_decode(body) == match spec_decode(body.skip(i as int)) {
                Option::Some(rest) => Option::Some(colors@ + rest),
                Option::None => Option::<Seq<Rgb8>>::None,
            },
        decreases body_len - i,
    {
        proof {
            assert forall|k: int| 0 <= k < body.len() - i implies #[trigger] body.skip(i as int)[k]
                == line@[i + k] by {}
        }
        let d0: u8 = line[i];
        let d1: u8 = line[i + 1];
        let d2: u8 = line[i + 2];
        let d3: u8 = line[i + 3];
        let d4: u8 = line[i + 4];
        let d5: u8 = line[i + 5];
        if !(is_hex_digit_exec(d0) && is_hex_digit_exec(d1) && is_hex_digit_exec(d2)
            && is_hex_digit_exec(d3) && is_hex_digit_exec(d4) && is_hex_digit_exec(d5)) {
            proof {
                assert(spec_decode(body.skip(i as int)) is None);
            }
            return None;
        }
        let red: u8 = 16 * hex_val_exec(d0) + hex_val_exec(d1);
        let green: u8 = 16 * hex_val_exec(d2) + hex_val_exec(d3);
        let blue: u8 = 16 * hex_val_exec(d4) + hex_val_exec(d5);
        let c = Rgb8 { r: red, g: green, b: blue };
        proof {
            assert(c == spec_color_of_hex(body.skip(i as int)));
            assert(body.skip(i as int).skip(6) =~= body.skip(i + 6));
            assert(spec_decode(body.skip(i as int)) == match spec_decode(body.skip(i + 6)) {
                Option::Some(rest) => Option::Some(seq![c] + rest),
                Option::None => Option::<Seq<Rgb8>>::None,
            });
            assert forall|rest: Seq<Rgb8>| true implies colors@ + (seq![c] + rest) =~= (
            colors@.push(c)) + rest by {}
        }
        colors.push(c);
        i = i + 6;
    }
    if i == body_len {
        proof {
            assert(body.skip(i as int) =~= Seq::<u8>::empty());
            assert(spec_decode(body.skip(i as int)) == Option::Some(Seq::<Rgb8>::empty()));
            assert(colors@ + Seq::<Rgb8>::empty() =~= colors@);
        }
        Some(colors)
    } else {
        proof {
            assert(body.skip(i as int).len() == body.len() - i);
            assert(spec_decode(body.skip(i as int)) is None);
        }
        None
    }
}

} // verus!
