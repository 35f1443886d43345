//! Atlas composition: arranging a frame set on a fixed 1024x1024 transparent
//! canvas along the tier's grid, centering each frame in its cell, with
//! alpha-over compositing done by the `image` crate behind a trusted wrapper.

use crate::frame::{views_of, Frame, FrameView};
use crate::resize::{lemma_resize_dims_fit, resize_dims_spec};
use crate::tier::{tier_for, tier_for_spec, Tier};
use vstd::arithmetic::div_mod::{lemma_mod_bound, lemma_multiply_divide_lt};
use vstd::prelude::*;

verus! {

/// The edge length of the packed atlas canvas, in pixels.
pub const CANVAS_SIZE: u32 = 1024;

/// What the alpha-over compositor returns for a given canvas, frame and
/// position; a pure function of its arguments.
pub uninterp spec fn overlay_of(
    canvas: Seq<u8>,
    canvas_width: int,
    canvas_height: int,
    top: Seq<u8>,
    top_width: int,
    top_height: int,
    x: int,
    y: int,
) -> Seq<u8>;

/// Relies on `image::imageops::overlay`: it alpha-blends `top` onto the
/// canvas at `(x, y)` in place, clipping at the canvas edges, so the canvas
/// keeps its dimensions and its new content is a pure function of the two
/// buffers and the position.
#[verifier::external_body]
fn overlay(canvas: Frame, top: &Frame, x: u32, y: u32) -> (r: Frame)
    requires
        canvas@.wf(),
        top@.wf(),
    ensures
        r@.width == canvas@.width,
        r@.height == canvas@.height,
        r@.pixels == overlay_of(
            canvas@.pixels,
            canvas@.width as int,
            canvas@.height as int,
            top@.pixels,
            top@.width as int,
            top@.height as int,
            x as int,
            y as int,
        ),
        r@.pixels.len() == canvas@.pixels.len(),
{
    let mut bottom = image::ImageBuffer::<image::Rgba<u8>, Vec<u8>>::from_raw(
        canvas.width,
        canvas.height,
        canvas.pixels,
    ).unwrap();
    let top_buffer = image::ImageBuffer::<image::Rgba<u8>, Vec<u8>>::from_raw(
        top.width,
        top.height,
        top.pixels.clone(),
    ).unwrap();
    image::imageops::overlay(&mut bottom, &top_buffer, x as i64, y as i64);
    Frame { width: canvas.width, height: canvas.height, pixels: bottom.into_raw() }
}

/// The fully transparent 1024x1024 canvas that every pack operation starts
/// from.
pub open spec fn transparent_canvas() -> FrameView {
    FrameView {
        width: CANVAS_SIZE as nat,
        height: CANVAS_SIZE as nat,
        pixels: Seq::new(4 * CANVAS_SIZE as nat * CANVAS_SIZE as nat, |i: int| 0u8),
    }
}

/// Horizontal position of frame `i` on the canvas: its cell origin plus the
/// centering offset, which biases toward the origin when the slack is odd.
pub open spec fn place_x(t: Tier, f: FrameView, i: int) -> int {
    (i % (t.slots_per_row as int)) * (t.frame_size as int) + (t.frame_size as int
        - f.width as int) / 2
}

/// Vertical position of frame `i` on the canvas, row-major by cell.
pub open spec fn place_y(t: Tier, f: FrameView, i: int) -> int {
    (i / (t.slots_per_row as int)) * (t.frame_size as int) + (t.frame_size as int
        - f.height as int) / 2
}

/// The canvas after compositing the first `k` frames of the set, in order,
/// each centered in its row-major grid cell for the set's tier.
pub open spec fn pack_prefix(frames: Seq<FrameView>, k: int) -> FrameView
    decreases k,
{
    if k <= 0 {
        transparent_canvas()
    } else {
        let t = tier_for_spec(frames.len() as int);
        let prev = pack_prefix(frames, k - 1);
        let f = frames[k - 1];
        FrameView {
            width: CANVAS_SIZE as nat,
            height: CANVAS_SIZE as nat,
            pixels: overlay_of(
                prev.pixels,
                CANVAS_SIZE as int,
                CANVAS_SIZE as int,
                f.pixels,
                f.width as int,
                f.height as int,
                place_x(t, f, k - 1),
                place_y(t, f, k - 1),
            ),
        }
    }
}

/// The finished atlas for a frame set: all frames composited in order.
pub open spec fn packed_canvas(frames: Seq<FrameView>) -> FrameView {
    pack_prefix(frames, frames.len() as int)
}

/// The frames of a set all fit the cells of the set's own tier, and the set
/// fits the canvas grid.
pub open spec fn packable(frames: Seq<FrameView>) -> bool {
    &&& 1 <= frames.len()
    &&& frames.len() <= tier_for_spec(frames.len() as int).total_slots
    &&& forall|i: int|
        0 <= i < frames.len() ==> (#[trigger] frames[i]).wf() && frames[i].width
            <= tier_for_spec(frames.len() as int).frame_size && frames[i].height <= tier_for_spec(
            frames.len() as int,
        ).frame_size
}

/// Packs a frame set onto a fresh transparent 1024x1024 canvas: frame `i`
/// goes to row `i / slotsPerRow`, column `i % slotsPerRow` of the tier's
/// grid, centered in its cell, composited with alpha-over blending.
#[verifier::loop_isolation(false)]
pub fn compose_atlas(frames: &Vec<Frame>) -> (r: Frame)
    requires
        packable(views_of(frames@)),
    ensures
        r@ == packed_canvas(views_of(frames@)),
        r@.wf(),
        r@.width == CANVAS_SIZE,
        r@.height == CANVAS_SIZE,
{
    let n: usize = frames.len();
    let tier = tier_for(n);
    let mut canvas = Frame::new_transparent(CANVAS_SIZE, CANVAS_SIZE);
    proof {
        assert(views_of(frames@).len() == n);
        assert(canvas@.pixels =~= transparent_canvas().pixels);
        assert(canvas@ == pack_prefix(views_of(frames@), 0));
    }
    let mut i: usize = 0;
    while i < n
        invariant
            i <= n,
            canvas@ == pack_prefix(views_of(frames@), i as int),
            canvas@.wf(),
            canvas@.width == CANVAS_SIZE,
            canvas@.height == CANVAS_SIZE,
        decreases n - i,
    {
        proof {
            assert(views_of(frames@)[i as int] == frames@[i as int]@);
            lemma_mod_bound(i as int, tier.slots_per_row as int);
            lemma_multiply_divide_lt(i as int, tier.slots_per_row as int, tier.slots_per_row as int);
            assert((i as int % (tier.slots_per_row as int)) * (tier.frame_size as int)
                <= 7 * 512 && (i as int / (tier.slots_per_row as int)) * (tier.frame_size as int)
                <= 7 * 512) by (nonlinear_arith)
                requires
                    0 <= i as int % (tier.slots_per_row as int) < 8,
                    0 <= i as int / (tier.slots_per_row as int) < 8,
                    tier.frame_size <= 512,
            ;
        }
        let f = &frames[i];
        let column: u32 = (i as u32) % tier.slots_per_row;
        let row: u32 = (i as u32) / tier.slots_per_row;
        let x: u32 = column * tier.frame_size + (tier.frame_size - f.width) / 2;
        let y: u32 = row * tier.frame_size + (tier.frame_size - f.height) / 2;
        canvas = overlay(canvas, f, x, y);
        proof {
            assert(canvas@ == pack_prefix(views_of(frames@), i as int + 1));
        }
        i = i + 1;
    }
    canvas
}

/// A finished pack operation: the composed atlas and the destination chosen
/// for it.
pub struct PackedAtlas {
    pub canvas: Frame,
    pub destination: String,
}

/// The pack operation: composes the atlas for a frame set, bound for the
/// chosen destination.  A missing destination means the user cancelled the
/// selection; the operation is then abandoned as a no-op and nothing is
/// produced for writing.
pub fn export_packed(frames: &Vec<Frame>, destination: Option<String>) -> (r: Option<PackedAtlas>)
    requires
        packable(views_of(frames@)),
    ensures
        r is Some <==> destination is Some,
        r is Some ==> r->0.canvas@ == packed_canvas(views_of(frames@)) && r->0.canvas@.wf()
            && r->0.destination == destination->0,
{
    match destination {
        Some(path) => Some(PackedAtlas { canvas: compose_atlas(frames), destination: path }),
        None => None,
    }
}

/// Packing is deterministic and idempotent: the atlas is fully determined by
/// the frame contents, so packing the same frame set twice yields
/// byte-identical canvases.
pub proof fn lemma_pack_deterministic(frames: Seq<FrameView>, c1: FrameView, c2: FrameView)
    requires
        c1 == packed_canvas(frames),
        c2 == packed_canvas(frames),
    ensures
        c1 == c2,
        c1.pixels == c2.pixels,
{
}

/// Centering never yields negative offsets: a frame sized by the
/// aspect-preserving resize for its tier's frame size fits its cell, so both
/// centering offsets are nonnegative and the frame stays inside the cell.
pub proof fn lemma_centering_nonneg(frame_count: int, width: int, height: int)
    requires
        1 <= frame_count,
        1 <= width,
        1 <= height,
    ensures
        ({
            let t = tier_for_spec(frame_count);
            let (ow, oh) = resize_dims_spec(width, height, t.frame_size as int);
            let dx = (t.frame_size as int - ow) / 2;
            let dy = (t.frame_size as int - oh) / 2;
            &&& 0 <= dx
            &&& 0 <= dy
            &&& dx + ow <= t.frame_size
            &&& dy + oh <= t.frame_size
        }),
{
    let t = tier_for_spec(frame_count);
    lemma_resize_dims_fit(width, height, t.frame_size as int);
}

} // verus!
