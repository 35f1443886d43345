//! Sequence preparation: bringing an ordered set of independently decoded
//! frames to their tier's frame size, each aspect-resized on its own.

use crate::frame::Frame;
use crate::resize::{lemma_resize_dims_fit, resample_of, resize_dims_spec, resize_frame};
use crate::tier::{tier_for, tier_for_spec};
use vstd::prelude::*;

verus! {

/// Resizes every frame of an ordered sequence so that its longer edge equals
/// the frame size of the tier selected by the sequence's length, preserving
/// each frame's own aspect ratio.  Frame order is kept.
#[verifier::loop_isolation(false)]
pub fn sequence_to_frames(frames: Vec<Frame>) -> (r: Vec<Frame>)
    requires
        1 <= frames@.len(),
        forall|i: int| 0 <= i < frames@.len() ==> (#[trigger] frames@[i])@.wf(),
    ensures
        r@.len() == frames@.len(),
        forall|i: int|
            0 <= i < frames@.len() ==> {
                let t = tier_for_spec(frames@.len() as int);
                let src = frames@[i]@;
                let dims = resize_dims_spec(src.width as int, src.height as int, t.frame_size as int);
                &&& (#[trigger] r@[i])@.wf()
                &&& r@[i]@.width == dims.0
                &&& r@[i]@.height == dims.1
                &&& r@[i]@.width <= t.frame_size
                &&& r@[i]@.height <= t.frame_size
                &&& r@[i]@.pixels == resample_of(
                    src.pixels,
                    src.width as int,
                    src.height as int,
                    dims.0,
                    dims.1,
                )
            },
{
    let n: usize = frames.len();
    let tier = tier_for(n);
    let mut resized: Vec<Frame> = Vec::new();
    let mut i: usize = 0;
    while i < n
        invariant
            i <= n,
            resized@.len() == i,
            forall|k: int|
                0 <= k < i ==> {
                    let t = tier_for_spec(frames@.len() as int);
                    let src = frames@[k]@;
                    let dims = resize_dims_spec(
                        src.width as int,
                        src.height as int,
                        t.frame_size as int,
                    );
                    &&& (#[trigger] resized@[k])@.wf()
                    &&& resized@[k]@.width == dims.0
                    &&& resized@[k]@.height == dims.1
                    &&& resized@[k]@.width <= t.frame_size
                    &&& resized@[k]@.height <= t.frame_size
                    &&& resized@[k]@.pixels == resample_of(
                        src.pixels,
                        src.width as int,
                        src.height as int,
                        dims.0,
                        dims.1,
                    )
                },
        decreases n - i,
    {
        proof {
            lemma_resize_dims_fit(
                frames@[i as int]@.width as int,
                frames@[i as int]@.height as int,
                tier.frame_size as int,
            );
        }
        let out = resize_frame(&frames[i], tier.frame_size);
        resized.push(out);
        i = i + 1;
    }
    resized
}

} // verus!
