use ambilight::color::Rgb8;
use ambilight::ring::assemble_ring;

fn shade(v: u8) -> Rgb8 {
    Rgb8 { r: v, g: 0, b: 0 }
}

#[test]
fn wiring_order_reverses_top_and_right() {
    let top = vec![shade(1), shade(2), shade(3)];
    let left = vec![shade(4), shade(5)];
    let bottom = vec![shade(6), shade(7), shade(8)];
    let right = vec![shade(9), shade(10)];
    let ring = assemble_ring(&top, &left, &bottom, &right);
    let expect: Vec<Rgb8> =
        [3, 2, 1, 4, 5, 6, 7, 8, 10, 9].iter().map(|&v| shade(v)).collect();
    assert_eq!(ring, expect);
}

#[test]
fn length_is_twice_each_count() {
    let top = vec![shade(1); 42];
    let bottom = vec![shade(2); 42];
    let left = vec![shade(3); 23];
    let right = vec![shade(4); 23];
    let ring = assemble_ring(&top, &left, &bottom, &right);
    assert_eq!(ring.len(), 2 * 42 + 2 * 23);
}

#[test]
fn empty_edges_make_an_empty_ring() {
    let ring = assemble_ring(&vec![], &vec![], &vec![], &vec![]);
    assert!(ring.is_empty());
}
