use vstd::prelude::*;
use vstd::arithmetic::div_mod::{lemma_add_mod_noop, lemma_small_mod, lemma_mod_sub_multiples_vanish};

verus! {

/// The frame a flipbook shows after `elapsed_frames` more frame intervals have
/// passed since it showed frame `index`, counting round its `frame_count`
/// frames. The sum is taken without overflow, so the result is a valid frame
/// for any `index` and `elapsed_frames`.
pub fn next_frame(index: usize, elapsed_frames: usize, frame_count: usize) -> (next: usize)
    requires
        frame_count > 0,
    ensures
        next == (index + elapsed_frames) % (frame_count as int),
        next < frame_count,
{
    let a = index % frame_count;
    let b = elapsed_frames % frame_count;
    proof {
        lemma_add_mod_noop(index as int, elapsed_frames as int, frame_count as int);
    }
    if a >= frame_count - b {
        proof {
            lemma_mod_sub_multiples_vanish((a + b) as int, frame_count as int);
            lemma_small_mod((a + b - frame_count) as nat, frame_count as nat);
        }
        a - (frame_count - b)
    } else {
        proof {
            lemma_small_mod((a + b) as nat, frame_count as nat);
        }
        a + b
    }
}

/// A flipbook found, or the missing flipbook in its place.
#[derive(Clone, Copy, Debug, PartialEq, Eq, Structural)]
pub enum FlipbookOrMissing {
    Flipbook(u64),
    Missing(u64),
}

impl FlipbookOrMissing {
    /// The handle of the flipbook, found or missing.
    pub fn inner(self) -> (h: u64)
        ensures
            h == match self {
                FlipbookOrMissing::Flipbook(f) => f,
                FlipbookOrMissing::Missing(m) => m,
            },
    {
        match self {
            FlipbookOrMissing::Flipbook(f) => f,
            FlipbookOrMissing::Missing(m) => m,
        }
    }
}

} // verus!
