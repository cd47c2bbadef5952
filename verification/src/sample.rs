//! Frames and the downsampler.
//!
//! A frame is a dense row-major pixel buffer with four bytes per pixel in
//! b, g, r, a order, as the capture backend delivers it. The downsampler
//! reduces a border strip to one color per LED by nearest-neighbor sampling:
//! it reads the source pixel nearest to the center of each LED's span along
//! the strip's long axis, and the center row or column along its short axis.
//! It copies nothing else and always succeeds on a strip that lies inside the
//! frame.

use vstd::prelude::*;
use crate::color::Rgb8;
use crate::geometry::Rect;

verus! {

/// One captured frame: `width x height` pixels, four bytes per pixel
/// (b, g, r, a), rows stored one after another.
pub struct Frame {
    pub width: u32,
    pub height: u32,
    pub data: Vec<u8>,
}

impl Frame {
    /// The buffer holds exactly the frame's pixels.
    pub open spec fn wf(self) -> bool {
        self.data.len() == 4 * self.width * self.height
    }
}

/// The color of the pixel at `(x, y)`: the red channel is the third byte of
/// the pixel, green the second, blue the first.
pub open spec fn spec_pixel(f: Frame, x: int, y: int) -> Rgb8 {
    let i = 4 * (y * f.width + x);
    Rgb8 { r: f.data@[i + 2], g: f.data@[i + 1], b: f.data@[i] }
}

/// Reads the pixel at `(x, y)` of a well-formed frame.
pub fn pixel_at(f: &Frame, x: u32, y: u32) -> (c: Rgb8)
    requires
        f.wf(),
        x < f.width,
        y < f.height,
    ensures
        c == spec_pixel(*f, x as int, y as int),
{
    proof {
        assert((y as int) * (f.width as int) + (x as int) < (f.width as int) * (f.height as int))
            by (nonlinear_arith)
            requires
                y < f.height,
                x < f.width,
        ;
        assert(4 * ((y as int) * (f.width as int) + (x as int)) + 4 <= 4 * ((f.width as int) * (
        f.height as int))) by (nonlinear_arith)
            requires
                (y as int) * (f.width as int) + (x as int) < (f.width as int) * (f.height as int),
        ;
        assert(4 * (f.width as int) * (f.height as int) == 4 * ((f.width as int) * (
        f.height as int))) by (nonlinear_arith);
    }
    let idx: u64 = 4 * ((y as u64) * (f.width as u64) + (x as u64));
    let i: usize = idx as usize;
    let blue: u8 = f.data[i];
    let green: u8 = f.data[i + 1];
    let red: u8 = f.data[i + 2];
    Rgb8 { r: red, g: green, b: blue }
}

/// Index of the nearest-neighbor source pixel for target index `j` when a run
/// of `src` pixels is resampled down to `dst` pixels: the source position
/// nearest to the center of the `j`-th target span, `floor((2*j + 1) * src / (2*dst))`.
pub open spec fn nearest_index(j: int, src: int, dst: int) -> int {
    ((2 * j + 1) * src) / (2 * dst)
}

/// The nearest-neighbor index stays inside the source run.
pub proof fn lemma_nearest_in_range(j: int, src: int, dst: int)
    requires
        0 <= j < dst,
        1 <= src,
    ensures
        0 <= nearest_index(j, src, dst) < src,
{
    assert(0 <= ((2 * j + 1) * src) / (2 * dst) < src) by (nonlinear_arith)
        requires
            0 <= j < dst,
            1 <= src,
    ;
}

/// Computes `nearest_index` in machine integers.
fn nearest_index_exec(j: u32, src: u32, dst: u32) -> (i: u32)
    requires
        j < dst,
        1 <= src,
    ensures
        i as int == nearest_index(j as int, src as int, dst as int),
        i < src,
{
    proof {
        assert((2 * (j as int) + 1) * (src as int) < 0x20000000000000000) by (nonlinear_arith)
            requires
                j < 0x100000000,
                src < 0x100000000,
        ;
    }
    let n: u128 = (2 * (j as u128) + 1) * (src as u128);
    let d: u128 = 2 * (dst as u128);
    let q: u128 = n / d;
    proof {
        lemma_nearest_in_range(j as int, src as int, dst as int);
    }
    q as u32
}

/// The edge sample sequence of a horizontal strip `r` (top or bottom), `n`
/// colors long: entry `j` is the pixel nearest the center of the `j`-th of
/// `n` equal spans of the strip's width, on the strip's center row.
pub open spec fn spec_sample_row(f: Frame, r: Rect, n: int) -> Seq<Rgb8> {
    Seq::new(n as nat, |j: int| spec_pixel(f, r.x + nearest_index(j, r.w as int, n), r.y + (
    r.h as int) / 2))
}

/// The edge sample sequence of a vertical strip `r` (left or right), `n`
/// colors long: entry `j` is the pixel nearest the center of the `j`-th of
/// `n` equal spans of the strip's height, on the strip's center column.
pub open spec fn spec_sample_col(f: Frame, r: Rect, n: int) -> Seq<Rgb8> {
    Seq::new(n as nat, |j: int| spec_pixel(f, r.x + (r.w as int) / 2, r.y + nearest_index(j,
    r.h as int, n)))
}

/// Downsamples a horizontal strip to `n` colors, one per LED.
pub fn sample_row(f: &Frame, r: &Rect, n: u32) -> (s: Vec<Rgb8>)
    requires
        f.wf(),
        1 <= n,
        1 <= r.w,
        1 <= r.h,
        r.x + r.w <= f.width,
        r.y + r.h <= f.height,
    ensures
        s@ == spec_sample_row(*f, *r, n as int),
{
    let mut s: Vec<Rgb8> = Vec::new();
    let mut j: u32 = 0;
    while j < n
        invariant
            j <= n,
            f.wf(),
            1 <= n,
            1 <= r.w,
            1 <= r.h,
            r.x + r.w <= f.width,
            r.y + r.h <= f.height,
            s@.len() == j,
            forall|k: int| 0 <= k < j ==> s@[k] == spec_sample_row(*f, *r, n as int)[k],
        decreases n - j,
    {
        let xi: u32 = r.x + nearest_index_exec(j, r.w, n);
        let yi: u32 = r.y + r.h / 2;
        s.push(pixel_at(f, xi, yi));
        j = j + 1;
    }
    proof {
        assert(s@ =~= spec_sample_row(*f, *r, n as int));
    }
    s
}

/// Downsamples a vertical strip to `n` colors, one per LED.
pub fn sample_col(f: &Frame, r: &Rect, n: u32) -> (s: Vec<Rgb8>)
    requires
        f.wf(),
        1 <= n,
        1 <= r.w,
        1 <= r.h,
        r.x + r.w <= f.width,
        r.y + r.h <= f.height,
    ensures
        s@ == spec_sample_col(*f, *r, n as int),
{
    let mut s: Vec<Rgb8> = Vec::new();
    let mut j: u32 = 0;
    while j < n
        invariant
            j <= n,
            f.wf(),
            1 <= n,
            1 <= r.w,
            1 <= r.h,
            r.x + r.w <= f.width,
            r.y + r.h <= f.height,
            s@.len() == j,
            forall|k: int| 0 <= k < j ==> s@[k] == spec_sample_col(*f, *r, n as int)[k],
        decreases n - j,
    {
        let xi: u32 = r.x + r.w / 2;
        let yi: u32 = r.y + nearest_index_exec(j, r.h, n);
        s.push(pixel_at(f, xi, yi));
        j = j + 1;
    }
    proof {
        assert(s@ =~= spec_sample_col(*f, *r, n as int));
    }
    s
}

/// Downsampling is deterministic over the strip's content: two frames of the
/// same width that agree on every pixel of the strip yield the same horizontal
/// edge sample sequence.
pub proof fn lemma_sample_row_deterministic(f1: Frame, f2: Frame, r: Rect, n: int)
    requires
        f1.width == f2.width,
        1 <= n,
        1 <= r.w,
        1 <= r.h,
        forall|x: int, y: int|
            r.x <= x < r.x + r.w && r.y <= y < r.y + r.h ==> spec_pixel(f1, x, y) == spec_pixel(
                f2,
                x,
                y,
            ),
    ensures
        spec_sample_row(f1, r, n) == spec_sample_row(f2, r, n),
{
    assert forall|j: int| 0 <= j < n implies spec_sample_row(f1, r, n)[j] == spec_sample_row(
        f2,
        r,
        n,
    )[j] by {
        lemma_nearest_in_range(j, r.w as int, n);
    }
    assert(spec_sample_row(f1, r, n) =~= spec_sample_row(f2, r, n));
}

/// Downsampling is deterministic over the strip's content: two frames of the
/// same width that agree on every pixel of the strip yield the same vertical
/// edge sample sequence.
pub proof fn lemma_sample_col_deterministic(f1: Frame, f2: Frame, r: Rect, n: int)
    requires
        f1.width == f2.width,
        1 <= n,
        1 <= r.w,
        1 <= r.h,
        forall|x: int, y: int|
            r.x <= x < r.x + r.w && r.y <= y < r.y + r.h ==> spec_pixel(f1, x, y) == spec_pixel(
                f2,
                x,
                y,
            ),
    ensures
        spec_sample_col(f1, r, n) == spec_sample_col(f2, r, n),
{
    assert forall|j: int| 0 <= j < n implies spec_sample_col(f1, r, n)[j] == spec_sample_col(
        f2,
        r,
        n,
    )[j] by {
        lemma_nearest_in_range(j, r.h as int, n);
    }
    assert(spec_sample_col(f1, r, n) =~= spec_sample_col(f2, r, n));
}

} // verus!
