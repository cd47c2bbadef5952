use ambilight::codec::decode_line;
use ambilight::color::Rgb8;
use ambilight::geometry::Rect;
use ambilight::pipeline::{
    cycle_step, process_frame, validate_config, Config, CycleAction, CycleEvent, LoopState,
};
use ambilight::sample::{sample_col, sample_row, Frame};

fn rgb(r: u8, g: u8, b: u8) -> Rgb8 {
    Rgb8 { r, g, b }
}

fn blank_frame(width: u32, height: u32) -> Frame {
    Frame { width, height, data: vec![0u8; (width * height * 4) as usize] }
}

fn set_px(f: &mut Frame, x: u32, y: u32, c: Rgb8) {
    let i = (4 * (y * f.width + x)) as usize;
    f.data[i] = c.b;
    f.data[i + 1] = c.g;
    f.data[i + 2] = c.r;
    f.data[i + 3] = 255;
}

fn fill(f: &mut Frame, x0: u32, y0: u32, w: u32, h: u32, c: Rgb8) {
    for y in y0..y0 + h {
        for x in x0..x0 + w {
            set_px(f, x, y, c);
        }
    }
}

fn full_hd_config() -> Config {
    Config {
        width: 1920,
        height: 1080,
        top_thickness: 60,
        side_thickness: 60,
        horizontal_count: 42,
        vertical_count: 23,
    }
}

#[test]
fn config_validation() {
    assert!(validate_config(&full_hd_config()).is_ok());
    let mut bad = full_hd_config();
    bad.width = 120;
    assert!(validate_config(&bad).is_err());
    let mut bad = full_hd_config();
    bad.height = 120;
    assert!(validate_config(&bad).is_err());
    let mut bad = full_hd_config();
    bad.horizontal_count = 0;
    assert!(validate_config(&bad).is_err());
}

#[test]
fn nearest_neighbor_picks_span_centers() {
    // A 4-wide, 3-tall strip downsampled to 2 colors reads pixels (1, 1) and (3, 1).
    let mut f = blank_frame(4, 3);
    for y in 0..3 {
        for x in 0..4 {
            set_px(&mut f, x, y, rgb((10 * x + y) as u8, 0, 0));
        }
    }
    let s = sample_row(&f, &Rect { x: 0, y: 0, w: 4, h: 3 }, 2);
    assert_eq!(s, vec![rgb(11, 0, 0), rgb(31, 0, 0)]);
}

#[test]
fn vertical_sampling_reads_the_center_column() {
    // A 3-wide, 4-tall strip downsampled to 2 colors reads pixels (1, 1) and (1, 3).
    let mut f = blank_frame(3, 4);
    for y in 0..4 {
        for x in 0..3 {
            set_px(&mut f, x, y, rgb((10 * x + y) as u8, 0, 0));
        }
    }
    let s = sample_col(&f, &Rect { x: 0, y: 0, w: 3, h: 4 }, 2);
    assert_eq!(s, vec![rgb(11, 0, 0), rgb(13, 0, 0)]);
}

#[test]
fn uniform_frame_yields_uniform_line() {
    // Every sample of a uniform frame is the same color; (200, 50, 50) lies
    // outside both clamp zones, so the line spells it verbatim.
    let cfg = Config {
        width: 6,
        height: 6,
        top_thickness: 1,
        side_thickness: 1,
        horizontal_count: 2,
        vertical_count: 2,
    };
    let mut f = blank_frame(6, 6);
    fill(&mut f, 0, 0, 6, 6, rgb(200, 50, 50));
    let line = process_frame(&cfg, &f);
    assert_eq!(line, b"C83232C83232C83232C83232C83232C83232C83232C83232\n".to_vec());
}

#[test]
fn full_hd_red_border_blue_sides() {
    // Red top/bottom strips and blue side strips on a 1920x1080 frame: the
    // ring has 2*42 + 2*23 = 130 entries, the first 42 red and the last 23 blue.
    let cfg = full_hd_config();
    let mut f = blank_frame(1920, 1080);
    fill(&mut f, 0, 0, 1920, 60, rgb(255, 0, 0));
    fill(&mut f, 0, 1020, 1920, 60, rgb(255, 0, 0));
    fill(&mut f, 0, 60, 60, 960, rgb(0, 0, 255));
    fill(&mut f, 1860, 60, 60, 960, rgb(0, 0, 255));
    let line = process_frame(&cfg, &f);
    let ring = decode_line(&line).unwrap();
    assert_eq!(ring.len(), 130);
    for i in 0..42 {
        assert_eq!(ring[i], rgb(255, 0, 0));
    }
    for i in 42..65 {
        assert_eq!(ring[i], rgb(0, 0, 255));
    }
    for i in 65..107 {
        assert_eq!(ring[i], rgb(255, 0, 0));
    }
    for i in 107..130 {
        assert_eq!(ring[i], rgb(0, 0, 255));
    }
}

#[test]
fn black_border_stays_black() {
    // A fully black border has lightness 0%, outside the open clamp zone, and
    // must come out as 000000 for every LED.
    let cfg = full_hd_config();
    let f = blank_frame(1920, 1080);
    let line = process_frame(&cfg, &f);
    let ring = decode_line(&line).unwrap();
    assert_eq!(ring.len(), 130);
    for c in ring {
        assert_eq!(c, rgb(0, 0, 0));
    }
}

#[test]
fn processing_is_deterministic() {
    let cfg = full_hd_config();
    let mut f = blank_frame(1920, 1080);
    fill(&mut f, 0, 0, 1920, 60, rgb(12, 34, 56));
    let first = process_frame(&cfg, &f);
    let second = process_frame(&cfg, &f);
    assert_eq!(first, second);
}

#[test]
fn captured_frame_is_transmitted_and_counted() {
    let cfg = Config {
        width: 6,
        height: 6,
        top_thickness: 1,
        side_thickness: 1,
        horizontal_count: 2,
        vertical_count: 2,
    };
    let mut f = blank_frame(6, 6);
    fill(&mut f, 0, 0, 6, 6, rgb(200, 50, 50));
    let expect = process_frame(&cfg, &f);
    let mut state = LoopState { cycles: 0 };
    match cycle_step(&cfg, &mut state, CycleEvent::Captured(f)) {
        CycleAction::Transmit(line) => assert_eq!(line, expect),
        CycleAction::Skip => panic!("a captured frame must be transmitted"),
    }
    assert_eq!(state.cycles, 1);
}

#[test]
fn missed_frame_skips_and_keeps_state() {
    // Frame-acquisition failure: nothing is written, the state is unchanged,
    // and the loop can go on to the next cycle.
    let cfg = full_hd_config();
    let mut state = LoopState { cycles: 7 };
    match cycle_step(&cfg, &mut state, CycleEvent::NoFrame) {
        CycleAction::Transmit(_) => panic!("a missed frame must not be transmitted"),
        CycleAction::Skip => {}
    }
    assert_eq!(state.cycles, 7);
    // The next good frame goes through untouched by the failure.
    let mut f = blank_frame(1920, 1080);
    fill(&mut f, 0, 0, 1920, 60, rgb(255, 0, 0));
    match cycle_step(&cfg, &mut state, CycleEvent::Captured(f)) {
        CycleAction::Transmit(line) => assert!(line.len() == 6 * 130 + 1),
        CycleAction::Skip => panic!("a captured frame must be transmitted"),
    }
    assert_eq!(state.cycles, 8);
}
