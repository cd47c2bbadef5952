use ambilight::geometry::{border_regions, Rect};

fn in_rect(r: &Rect, x: u32, y: u32) -> bool {
    r.x <= x && x < r.x + r.w && r.y <= y && y < r.y + r.h
}

#[test]
fn full_hd_regions() {
    let b = border_regions(1920, 1080, 60, 60).unwrap();
    assert_eq!(b.top, Rect { x: 0, y: 0, w: 1920, h: 60 });
    assert_eq!(b.bottom, Rect { x: 0, y: 1020, w: 1920, h: 60 });
    assert_eq!(b.left, Rect { x: 0, y: 60, w: 60, h: 960 });
    assert_eq!(b.right, Rect { x: 1860, y: 60, w: 60, h: 960 });
}

#[test]
fn too_narrow_fails() {
    // width == 2*l violates the strict constraint.
    assert!(border_regions(120, 1080, 60, 60).is_err());
    assert!(border_regions(100, 1080, 60, 60).is_err());
}

#[test]
fn too_short_fails() {
    // height == 2*t violates the strict constraint.
    assert!(border_regions(1920, 120, 60, 60).is_err());
    assert!(border_regions(1920, 90, 60, 60).is_err());
}

#[test]
fn just_large_enough_succeeds() {
    assert!(border_regions(121, 121, 60, 60).is_ok());
}

#[test]
fn regions_cover_border_once() {
    // Every border pixel of a 10x8 frame with t=2, l=3 lies in exactly one
    // region; every interior pixel lies in none.
    let (w, h, t, l) = (10u32, 8u32, 2u32, 3u32);
    let b = border_regions(w, h, t, l).unwrap();
    let rects = [b.top, b.bottom, b.left, b.right];
    for x in 0..w {
        for y in 0..h {
            let hits = rects.iter().filter(|r| in_rect(r, x, y)).count();
            let on_border = y < t || y >= h - t || x < l || x >= w - l;
            assert_eq!(hits, if on_border { 1 } else { 0 });
        }
    }
}
