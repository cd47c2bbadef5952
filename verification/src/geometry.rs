//! Border geometry: the four fixed strips sliced off a frame.
//!
//! A frame of `width x height` pixels with top/bottom thickness `t` and
//! left/right thickness `l` has a top strip across the full width, a bottom
//! strip across the full width, and left and right strips that fill the rows
//! between them, so no border pixel falls in two strips. The geometry is only
//! usable when `width > 2*l` and `height > 2*t`; anything else is a
//! configuration/display mismatch reported as a `GeometryError`.

use vstd::prelude::*;

verus! {

/// A rectangle of pixels of a frame: `w x h` pixels starting at `(x, y)`.
#[derive(Clone, Copy, PartialEq, Eq, Structural, Debug)]
pub struct Rect {
    pub x: u32,
    pub y: u32,
    pub w: u32,
    pub h: u32,
}

/// The four border strips of one frame.
#[derive(Clone, Copy, PartialEq, Eq, Structural, Debug)]
pub struct BorderRects {
    pub top: Rect,
    pub bottom: Rect,
    pub left: Rect,
    pub right: Rect,
}

/// The border thicknesses do not fit the frame: `width <= 2*l` or `height <= 2*t`.
#[derive(Clone, Copy, PartialEq, Eq, Structural, Debug)]
pub struct GeometryError {
}

/// The constraint under which the four strips exist: the two side strips must
/// leave room between them, and so must the top and bottom strips.
pub open spec fn geometry_ok(width: int, height: int, t: int, l: int) -> bool {
    width > 2 * l && height > 2 * t
}

/// The four border strips of a `width x height` frame with thicknesses `t`
/// (top/bottom) and `l` (left/right).
pub open spec fn spec_border_rects(width: u32, height: u32, t: u32, l: u32) -> BorderRects {
    BorderRects {
        top: Rect { x: 0, y: 0, w: width, h: t },
        bottom: Rect { x: 0, y: (height - t) as u32, w: width, h: t },
        left: Rect { x: 0, y: t, w: l, h: (height - 2 * t) as u32 },
        right: Rect { x: (width - l) as u32, y: t, w: l, h: (height - 2 * t) as u32 },
    }
}

/// Slices the four border strips off a frame of the given size, or reports a
/// `GeometryError` exactly when the thicknesses do not fit the frame.
pub fn border_regions(width: u32, height: u32, t: u32, l: u32) -> (r: Result<
    BorderRects,
    GeometryError,
>)
    ensures
        r is Ok <==> geometry_ok(width as int, height as int, t as int, l as int),
        r matches Ok(b) ==> b == spec_border_rects(width, height, t, l),
{
    if (width as u64) > 2 * (l as u64) && (height as u64) > 2 * (t as u64) {
        Ok(
            BorderRects {
                top: Rect { x: 0, y: 0, w: width, h: t },
                bottom: Rect { x: 0, y: height - t, w: width, h: t },
                left: Rect { x: 0, y: t, w: l, h: height - 2 * t },
                right: Rect { x: width - l, y: t, w: l, h: height - 2 * t },
            },
        )
    } else {
        Err(GeometryError {  })
    }
}

/// The set of pixel coordinates covered by a rectangle.
pub open spec fn rect_points(r: Rect) -> Set<(int, int)> {
    Set::new(
        |p: (int, int)|
            r.x <= p.0 < r.x + r.w && r.y <= p.1 < r.y + r.h,
    )
}

/// The set of pixel coordinates of the whole border of a `width x height`
/// frame: every pixel within `t` rows of the top or bottom edge or within `l`
/// columns of the left or right edge.
pub open spec fn border_points(width: int, height: int, t: int, l: int) -> Set<(int, int)> {
    Set::new(
        |p: (int, int)|
            0 <= p.0 < width && 0 <= p.1 < height && (p.1 < t || p.1 >= height - t || p.0 < l
                || p.0 >= width - l),
    )
}

/// The four border strips cover exactly the frame's border, and no pixel lies
/// in two of them: the corner pixels belong to the top and bottom strips only.
pub proof fn lemma_border_coverage(width: u32, height: u32, t: u32, l: u32)
    requires
        geometry_ok(width as int, height as int, t as int, l as int),
    ensures
        ({
            let b = spec_border_rects(width, height, t, l);
            rect_points(b.top) + rect_points(b.bottom) + rect_points(b.left) + rect_points(b.right)
                == border_points(width as int, height as int, t as int, l as int)
        }),
        ({
            let b = spec_border_rects(width, height, t, l);
            rect_points(b.top).disjoint(rect_points(b.bottom)) && rect_points(b.top).disjoint(
                rect_points(b.left),
            ) && rect_points(b.top).disjoint(rect_points(b.right)) && rect_points(
                b.bottom,
            ).disjoint(rect_points(b.left)) && rect_points(b.bottom).disjoint(
                rect_points(b.right),
            ) && rect_points(b.left).disjoint(rect_points(b.right))
        }),
{
    let b = spec_border_rects(width, height, t, l);
    assert(rect_points(b.top) + rect_points(b.bottom) + rect_points(b.left) + rect_points(b.right)
        =~= border_points(width as int, height as int, t as int, l as int));
}

} // verus!
