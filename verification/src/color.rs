//! Colors and the perceptual correction stage.
//!
//! A sampled border color is often near-black or desaturated and would render
//! as visually dead on a physical LED strip. The corrector therefore lifts
//! HSL lightness that falls strictly between 5% and 30% up to 30%, and HSL
//! saturation that falls strictly between 5% and 60% up to 60%, leaving hue
//! unchanged. Values at or outside those open intervals are untouched, so true
//! black and fully saturated colors pass through exactly.
//!
//! All of the arithmetic is exact: lightness and saturation are handled as
//! integer fractions, never floating point, so every property of the clamp
//! boundaries is provable and reproducible.

use vstd::prelude::*;

verus! {

/// A color in the additive representation: red, green, blue, 8 bits per channel.
#[derive(Clone, Copy, PartialEq, Eq, Structural, Debug)]
pub struct Rgb8 {
    pub r: u8,
    pub g: u8,
    pub b: u8,
}

/// Largest of the three channel values.
pub open spec fn chan_max(c: Rgb8) -> int {
    if c.r >= c.g && c.r >= c.b {
        c.r as int
    } else if c.g >= c.b {
        c.g as int
    } else {
        c.b as int
    }
}

/// Smallest of the three channel values.
pub open spec fn chan_min(c: Rgb8) -> int {
    if c.r <= c.g && c.r <= c.b {
        c.r as int
    } else if c.g <= c.b {
        c.g as int
    } else {
        c.b as int
    }
}

/// `max + min`: twice the HSL lightness, scaled so that 510 stands for full white.
/// The lightness fraction of a color is `light_sum / 510`.
pub open spec fn light_sum(c: Rgb8) -> int {
    chan_max(c) + chan_min(c)
}

/// `max - min`: the chroma, the numerator of HSL saturation.
pub open spec fn chroma(c: Rgb8) -> int {
    chan_max(c) - chan_min(c)
}

/// Denominator of HSL saturation: the saturation fraction of a color with
/// positive chroma is `chroma / sat_den`.
pub open spec fn sat_den(c: Rgb8) -> int {
    if light_sum(c) <= 255 {
        light_sum(c)
    } else {
        510 - light_sum(c)
    }
}

/// The lightness lies strictly between 5% and 30%: the murky near-black zone
/// that is clamped up. Both bounds are strict, so 5% and 30% exactly stay out.
pub open spec fn in_light_zone(c: Rgb8) -> bool {
    100 * light_sum(c) > 5 * 510 && 100 * light_sum(c) < 30 * 510
}

/// The saturation lies strictly between 5% and 60%: the muddy low-saturation
/// zone that is clamped up. Both bounds are strict; gray (chroma 0) stays out.
pub open spec fn in_sat_zone(c: Rgb8) -> bool {
    chroma(c) > 0 && 100 * chroma(c) > 5 * sat_den(c) && 100 * chroma(c) < 60 * sat_den(c)
}

/// Lightness after clamping, as a numerator over 510: 153 (30%) inside the
/// zone, the color's own lightness otherwise.
pub open spec fn light_target(c: Rgb8) -> int {
    if in_light_zone(c) {
        153
    } else {
        light_sum(c)
    }
}

/// Numerator of the saturation after clamping: the fraction is 3/5 (60%)
/// inside the zone, the color's own saturation otherwise.
pub open spec fn sat_target_num(c: Rgb8) -> int {
    if in_sat_zone(c) {
        3
    } else {
        chroma(c)
    }
}

/// Denominator of the saturation after clamping.
pub open spec fn sat_target_den(c: Rgb8) -> int {
    if in_sat_zone(c) {
        5
    } else {
        sat_den(c)
    }
}

/// Nearest integer to `num / den` for `num >= 0`, `den > 0`, halves rounding up.
pub open spec fn round_frac(num: int, den: int) -> int {
    (2 * num + den) / (2 * den)
}

/// One channel of the color rebuilt at lightness `l / 510` and saturation
/// `sn / sd`, with the hue of the source color kept. `d` and `mn` are the
/// chroma and the channel minimum of the source color and `x` the source
/// channel value. With `k = min(l, 510 - l)`, the rebuilt color has chroma
/// `ch = 2 * (k / 510) * (sn / sd)` and channel minimum `m0 = l / 510 - ch / 2`;
/// keeping the hue places this channel at `m0 + ch * (x - mn) / d`, and the
/// result is that value scaled by 255 and rounded to the nearest integer.
pub open spec fn rebuilt_channel(d: int, mn: int, l: int, sn: int, sd: int, x: int) -> int {
    let k = if l <= 255 { l } else { 510 - l };
    if d == 0 {
        round_frac(l, 2)
    } else {
        round_frac(d * (l * sd - k * sn) + 2 * k * sn * (x - mn), 2 * sd * d)
    }
}

/// The perceptual correction: the identity on a color whose lightness and
/// saturation both lie outside the clamp zones; otherwise each channel is
/// rebuilt at the clamped lightness and saturation with the hue unchanged.
pub open spec fn spec_correct(c: Rgb8) -> Rgb8 {
    if !in_light_zone(c) && !in_sat_zone(c) {
        c
    } else {
        let d = chroma(c);
        let mn = chan_min(c);
        let l = light_target(c);
        let sn = sat_target_num(c);
        let sd = sat_target_den(c);
        Rgb8 {
            r: rebuilt_channel(d, mn, l, sn, sd, c.r as int) as u8,
            g: rebuilt_channel(d, mn, l, sn, sd, c.g as int) as u8,
            b: rebuilt_channel(d, mn, l, sn, sd, c.b as int) as u8,
        }
    }
}

/// Largest channel value of `c`.
pub fn max_channel(c: Rgb8) -> (m: u8)
    ensures
        m as int == chan_max(c),
{
    if c.r >= c.g && c.r >= c.b {
        c.r
    } else if c.g >= c.b {
        c.g
    } else {
        c.b
    }
}

/// Smallest channel value of `c`.
pub fn min_channel(c: Rgb8) -> (m: u8)
    ensures
        m as int == chan_min(c),
{
    if c.r <= c.g && c.r <= c.b {
        c.r
    } else if c.g <= c.b {
        c.g
    } else {
        c.b
    }
}

/// Computes `rebuilt_channel` exactly, in machine integers.
fn rebuilt_channel_exec(d: u64, mn: u64, l: u64, sn: u64, sd: u64, x: u64) -> (v: u64)
    requires
        d <= 255,
        mn <= 255,
        l <= 510,
        sn <= sd,
        1 <= sd <= 510,
        mn <= x,
        x <= mn + d,
    ensures
        v == rebuilt_channel(d as int, mn as int, l as int, sn as int, sd as int, x as int),
        v <= 255,
{
    if d == 0 {
        (2 * l + 2) / 4
    } else {
        let k: u64 = if l <= 255 { l } else { 510 - l };
        proof {
            assert(l * sd <= 510 * 510) by (nonlinear_arith)
                requires
                    l <= 510,
                    sd <= 510,
            ;
            assert(k * sn <= l * sd) by (nonlinear_arith)
                requires
                    k <= l,
                    sn <= sd,
            ;
            assert(d * (l * sd - k * sn) <= 255 * (510 * 510)) by (nonlinear_arith)
                requires
                    d <= 255,
                    k * sn <= l * sd,
                    l * sd <= 510 * 510,
            ;
            assert(k * sn <= 255 * 510) by (nonlinear_arith)
                requires
                    k <= 255,
                    sn <= 510,
            ;
        }
        let ksn: u64 = k * sn;
        proof {
            assert((2 * ksn) * (x - mn) <= 2 * (255 * 510) * 255) by (nonlinear_arith)
                requires
                    ksn <= 255 * 510,
                    x - mn <= 255,
            ;
        }
        let num: u64 = d * (l * sd - ksn) + 2 * ksn * (x - mn);
        proof {
            assert(2 <= (2 * sd) * d <= 2 * (510 * 255)) by (nonlinear_arith)
                requires
                    1 <= sd <= 510,
                    1 <= d <= 255,
            ;
        }
        let den: u64 = 2 * sd * d;
        proof {
            assert(num <= 255 * den) by (nonlinear_arith)
                requires
                    num == d * (l * sd - k * sn) + 2 * (k * sn) * (x - mn),
                    den == 2 * sd * d,
                    k <= 510 - l,
                    sn <= sd,
                    x - mn <= d,
                    k * sn <= l * sd,
            ;
            assert((2 * num + den) / (2 * den) <= 255) by (nonlinear_arith)
                requires
                    num <= 255 * den,
                    den >= 1,
            ;
            assert(d * (l * sd - k * sn) + 2 * k * sn * (x - mn) == d * (l * sd - ksn) + (2 * ksn)
                * (x - mn)) by (nonlinear_arith)
                requires
                    ksn == k * sn,
            ;
        }
        (2 * num + den) / (2 * den)
    }
}

/// Applies the perceptual correction to one color: lightness strictly inside
/// (5%, 30%) is lifted to 30%, saturation strictly inside (5%, 60%) is lifted
/// to 60%, hue is kept; a color outside both zones is returned unchanged.
pub fn correct_color(c: Rgb8) -> (out: Rgb8)
    ensures
        out == spec_correct(c),
{
    let mx: u8 = max_channel(c);
    let mn: u8 = min_channel(c);
    let sum: u64 = mx as u64 + mn as u64;
    let d: u64 = (mx - mn) as u64;
    let lz: bool = 100 * sum > 2550 && 100 * sum < 15300;
    let sden: u64 = if sum <= 255 { sum } else { 510 - sum };
    let sz: bool = d > 0 && 100 * d > 5 * sden && 100 * d < 60 * sden;
    if !lz && !sz {
        return c;
    }
    let l: u64 = if lz { 153 } else { sum };
    let sn: u64 = if sz { 3 } else { d };
    let sd: u64 = if sz { 5 } else { sden };
    let vr: u64 = rebuilt_channel_exec(d, mn as u64, l, sn, sd, c.r as u64);
    let vg: u64 = rebuilt_channel_exec(d, mn as u64, l, sn, sd, c.g as u64);
    let vb: u64 = rebuilt_channel_exec(d, mn as u64, l, sn, sd, c.b as u64);
    Rgb8 { r: vr as u8, g: vg as u8, b: vb as u8 }
}

/// Corrects a whole edge sample sequence, keeping order and count: the result
/// is exactly the input mapped through `spec_correct`.
pub fn correct_colors(colors: &Vec<Rgb8>) -> (out: Vec<Rgb8>)
    ensures
        out@ == colors@.map_values(|c: Rgb8| spec_correct(c)),
{
    let mut out: Vec<Rgb8> = Vec::new();
    let mut i: usize = 0;
    while i < colors.len()
        invariant
            i <= colors.len(),
            out@ == colors@.take(i as int).map_values(|c: Rgb8| spec_correct(c)),
        decreases colors.len() - i,
    {
        out.push(correct_color(colors[i]));
        proof {
            assert(colors@.take(i + 1) =~= colors@.take(i as int).push(colors@[i as int]));
            assert(colors@.take(i + 1).map_values(|c: Rgb8| spec_correct(c)) =~= colors@.take(
                i as int,
            ).map_values(|c: Rgb8| spec_correct(c)).push(spec_correct(colors@[i as int])));
        }
        i = i + 1;
    }
    proof {
        assert(colors@.take(colors@.len() as int) =~= colors@);
    }
    out
}

/// A color whose lightness and saturation both lie at or outside the clamp
/// zones is already corrected: the corrector returns it unchanged, and so
/// correcting it twice equals correcting it once.
pub proof fn lemma_correct_identity_outside_zones(c: Rgb8)
    requires
        !in_light_zone(c),
        !in_sat_zone(c),
    ensures
        spec_correct(c) == c,
        spec_correct(spec_correct(c)) == spec_correct(c),
{
}

/// Lightness exactly at a zone boundary (5% or 30%) is not clamped: the zone
/// bounds are strict.
pub proof fn lemma_lightness_boundary_not_clamped(c: Rgb8)
    requires
        100 * light_sum(c) == 5 * 510 || 100 * light_sum(c) == 30 * 510,
        !in_sat_zone(c),
    ensures
        spec_correct(c) == c,
{
}

/// Saturation exactly at a zone boundary (5% or 60%) is not clamped: the zone
/// bounds are strict.
pub proof fn lemma_saturation_boundary_not_clamped(c: Rgb8)
    requires
        100 * chroma(c) == 5 * sat_den(c) || 100 * chroma(c) == 60 * sat_den(c),
        !in_light_zone(c),
    ensures
        spec_correct(c) == c,
{
}

} // verus!
