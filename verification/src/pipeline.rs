//! The per-frame pipeline and the steady-state loop's decisions.
//!
//! `process_frame` runs one whole cycle's computation: slice the four border
//! strips, downsample each to its LED count, correct the colors, assemble the
//! ring in wiring order, and render the serial line. `cycle_step` is the loop
//! controller's decision function: on a captured frame it produces the line to
//! transmit and advances the cycle counter; on a missed frame it transmits
//! nothing and leaves the state as it was, so one bad frame never stops the
//! loop. The blocking wait for the next frame and the serial write themselves
//! are I/O and stay outside the library.

use vstd::prelude::*;
use crate::codec::{encode_line, spec_line};
use crate::color::{correct_colors, spec_correct, Rgb8};
use crate::geometry::{border_regions, spec_border_rects, GeometryError};
use crate::ring::{assemble_ring, spec_ring};
use crate::sample::{sample_col, sample_row, spec_sample_col, spec_sample_row, Frame};

verus! {

/// The startup constants of one installation: the display size, the border
/// thicknesses, and the LED counts of the horizontal and vertical edges.
#[derive(Clone, Copy, PartialEq, Eq, Structural, Debug)]
pub struct Config {
    pub width: u32,
    pub height: u32,
    pub top_thickness: u32,
    pub side_thickness: u32,
    pub horizontal_count: u32,
    pub vertical_count: u32,
}

impl Config {
    /// The geometry fits the display and every strip and edge is non-empty:
    /// the side strips leave room between them, the top and bottom strips do
    /// too, and thicknesses and LED counts are at least one.
    pub open spec fn wf(self) -> bool {
        self.width > 2 * self.side_thickness && self.height > 2 * self.top_thickness
            && self.top_thickness >= 1 && self.side_thickness >= 1 && self.horizontal_count >= 1
            && self.vertical_count >= 1
    }
}

/// Validates a configuration at startup: `Ok` exactly when the border
/// geometry fits the display and no thickness or LED count is zero. A failure
/// here is fatal; nothing is retried per frame.
pub fn validate_config(cfg: &Config) -> (r: Result<(), GeometryError>)
    ensures
        r is Ok <==> cfg.wf(),
{
    if (cfg.width as u64) > 2 * (cfg.side_thickness as u64) && (cfg.height as u64) > 2 * (
    cfg.top_thickness as u64) && cfg.top_thickness >= 1 && cfg.side_thickness >= 1
        && cfg.horizontal_count >= 1 && cfg.vertical_count >= 1 {
        Ok(())
    } else {
        Err(GeometryError {  })
    }
}

/// The LED ring of one frame under a configuration: each border strip
/// downsampled to its LED count, corrected, and assembled in wiring order.
pub open spec fn spec_frame_ring(cfg: Config, f: Frame) -> Seq<Rgb8> {
    let b = spec_border_rects(cfg.width, cfg.height, cfg.top_thickness, cfg.side_thickness);
    let top = spec_sample_row(f, b.top, cfg.horizontal_count as int).map_values(
        |c: Rgb8| spec_correct(c),
    );
    let bottom = spec_sample_row(f, b.bottom, cfg.horizontal_count as int).map_values(
        |c: Rgb8| spec_correct(c),
    );
    let left = spec_sample_col(f, b.left, cfg.vertical_count as int).map_values(
        |c: Rgb8| spec_correct(c),
    );
    let right = spec_sample_col(f, b.right, cfg.vertical_count as int).map_values(
        |c: Rgb8| spec_correct(c),
    );
    spec_ring(top, left, bottom, right)
}

/// The serial line of one frame under a configuration.
pub open spec fn spec_frame_line(cfg: Config, f: Frame) -> Seq<u8> {
    spec_line(spec_frame_ring(cfg, f))
}

/// The LED ring of a frame always has the configured length.
pub proof fn lemma_frame_ring_length(cfg: Config, f: Frame)
    requires
        cfg.wf(),
    ensures
        spec_frame_ring(cfg, f).len() == 2 * cfg.horizontal_count + 2 * cfg.vertical_count,
{
}

/// Runs one cycle's computation on a captured frame and returns the serial
/// line for it: border extraction, downsampling, color correction, ring
/// assembly and hex encoding, exactly in that order.
pub fn process_frame(cfg: &Config, f: &Frame) -> (line: Vec<u8>)
    requires
        cfg.wf(),
        f.wf(),
        f.width == cfg.width,
        f.height == cfg.height,
    ensures
        line@ == spec_frame_line(*cfg, *f),
{
    let rects = match border_regions(cfg.width, cfg.height, cfg.top_thickness, cfg.side_thickness) {
        Ok(b) => b,
        Err(_) => { vstd::pervasive::unreached() },
    };
    let top_raw = sample_row(f, &rects.top, cfg.horizontal_count);
    let bottom_raw = sample_row(f, &rects.bottom, cfg.horizontal_count);
    let left_raw = sample_col(f, &rects.left, cfg.vertical_count);
    let right_raw = sample_col(f, &rects.right, cfg.vertical_count);
    let top = correct_colors(&top_raw);
    let bottom = correct_colors(&bottom_raw);
    let left = correct_colors(&left_raw);
    let right = correct_colors(&right_raw);
    let ring = assemble_ring(&top, &left, &bottom, &right);
    encode_line(&ring)
}

/// What one loop iteration was given: a captured frame, or word that no new
/// frame was available this cycle.
pub enum CycleEvent {
    Captured(Frame),
    NoFrame,
}

/// What the loop does with the cycle: hand a serial line to the transport, or
/// skip the cycle entirely.
pub enum CycleAction {
    Transmit(Vec<u8>),
    Skip,
}

/// The loop controller's own state: the number of completed cycles, kept only
/// for throughput reporting. It saturates rather than wraps.
pub struct LoopState {
    pub cycles: u64,
}

/// One steady-state loop decision. A captured frame yields exactly the serial
/// line of that frame and one more completed cycle. A missed frame yields no
/// transmission and an unchanged state: the failure is contained in this
/// cycle, and the caller simply asks for the next frame.
pub fn cycle_step(cfg: &Config, state: &mut LoopState, ev: CycleEvent) -> (a: CycleAction)
    requires
        cfg.wf(),
        ev matches CycleEvent::Captured(f) ==> f.wf() && f.width == cfg.width && f.height
            == cfg.height,
    ensures
        ev matches CycleEvent::Captured(f) ==> a matches CycleAction::Transmit(line) && line@
            == spec_frame_line(*cfg, f) && final(state).cycles == (if old(state).cycles
            < u64::MAX {
            old(state).cycles + 1
        } else {
            old(state).cycles as int
        }),
        ev is NoFrame ==> a is Skip && *final(state) == *old(state),
{
    match ev {
        CycleEvent::Captured(f) => {
            let line = process_frame(cfg, &f);
            if state.cycles < u64::MAX {
                state.cycles = state.cycles + 1;
            }
            CycleAction::Transmit(line)
        },
        CycleEvent::NoFrame => CycleAction::Skip,
    }
}

} // verus!
