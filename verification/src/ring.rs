//! The LED ring assembler.
//!
//! The physical strip is wired from the top-right corner: it runs along the
//! top edge right-to-left, down the left edge, along the bottom edge
//! left-to-right, and up the right edge. The assembler therefore reverses the
//! top and right edge sequences and concatenates the four in that order. The
//! ordering is a hardware-wiring fact, fixed here in one place.

use vstd::prelude::*;
use crate::color::Rgb8;

verus! {

/// The ring in wiring order: reversed top, then left, then bottom, then
/// reversed right.
pub open spec fn spec_ring(
    top: Seq<Rgb8>,
    left: Seq<Rgb8>,
    bottom: Seq<Rgb8>,
    right: Seq<Rgb8>,
) -> Seq<Rgb8> {
    top.reverse() + left + bottom + right.reverse()
}

/// Pushes the entries of `src` onto `dst` in reverse order.
fn push_reversed(dst: &mut Vec<Rgb8>, src: &Vec<Rgb8>)
    ensures
        final(dst)@ == old(dst)@ + src@.reverse(),
{
    let mut i: usize = 0;
    while i < src.len()
        invariant
            i <= src.len(),
            dst@.len() == old(dst)@.len() + i,
            forall|k: int| 0 <= k < old(dst)@.len() ==> dst@[k] == old(dst)@[k],
            forall|k: int|
                old(dst)@.len() <= k < old(dst)@.len() + i ==> #[trigger] dst@[k] == src@[
                    src@.len() - 1 - (k - old(dst)@.len())
                ],
        decreases src.len() - i,
    {
        dst.push(src[src.len() - 1 - i]);
        i = i + 1;
    }
    proof {
        assert(dst@ =~= old(dst)@ + src@.reverse());
    }
}

/// Pushes the entries of `src` onto `dst` in order.
fn push_forward(dst: &mut Vec<Rgb8>, src: &Vec<Rgb8>)
    ensures
        final(dst)@ == old(dst)@ + src@,
{
    let mut i: usize = 0;
    while i < src.len()
        invariant
            i <= src.len(),
            dst@.len() == old(dst)@.len() + i,
            forall|k: int| 0 <= k < old(dst)@.len() ==> dst@[k] == old(dst)@[k],
            forall|k: int|
                old(dst)@.len() <= k < old(dst)@.len() + i ==> #[trigger] dst@[k] == src@[
                    k - old(dst)@.len()
                ],
        decreases src.len() - i,
    {
        dst.push(src[i]);
        i = i + 1;
    }
    proof {
        assert(dst@ =~= old(dst)@ + src@);
    }
}

/// Assembles the LED ring from the four corrected edge sequences, in the
/// wiring order of the strip: top reversed, left as sampled, bottom as
/// sampled, right reversed.
pub fn assemble_ring(
    top: &Vec<Rgb8>,
    left: &Vec<Rgb8>,
    bottom: &Vec<Rgb8>,
    right: &Vec<Rgb8>,
) -> (ring: Vec<Rgb8>)
    ensures
        ring@ == spec_ring(top@, left@, bottom@, right@),
{
    let mut ring: Vec<Rgb8> = Vec::new();
    push_reversed(&mut ring, top);
    push_forward(&mut ring, left);
    push_forward(&mut ring, bottom);
    push_reversed(&mut ring, right);
    ring
}

/// The assembler is length-preserving: with the two horizontal edges at the
/// configured horizontal LED count and the two vertical edges at the vertical
/// count, the ring has exactly `2*h_count + 2*v_count` entries.
pub proof fn lemma_ring_length(
    top: Seq<Rgb8>,
    left: Seq<Rgb8>,
    bottom: Seq<Rgb8>,
    right: Seq<Rgb8>,
    h_count: int,
    v_count: int,
)
    requires
        top.len() == h_count,
        bottom.len() == h_count,
        left.len() == v_count,
        right.len() == v_count,
    ensures
        spec_ring(top, left, bottom, right).len() == 2 * h_count + 2 * v_count,
{
}

} // verus!
