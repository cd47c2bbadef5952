//! Verified core of an ambient-lighting pipeline: it slices the border strips
//! off a captured frame, downsamples each strip to one color per LED,
//! perceptually corrects the colors, assembles them in the wiring order of the
//! physical strip, and renders the result as one hexadecimal text line for the
//! serial link. Frame capture and the serial write themselves are I/O and live
//! outside this library.

pub mod codec;
pub mod color;
pub mod geometry;
pub mod pipeline;
pub mod ring;
pub mod sample;
