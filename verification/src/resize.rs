//! Aspect-preserving resizing: the output dimension arithmetic is verified;
//! the resampling itself is the `image` crate's Catmull-Rom filter behind a
//! trusted wrapper.

use crate::frame::Frame;
use vstd::arithmetic::div_mod::{
    lemma_basic_div, lemma_div_by_self, lemma_div_is_ordered, lemma_fundamental_div_mod,
    lemma_mod_bound, lemma_multiply_divide_le,
};
use vstd::arithmetic::mul::{lemma_mul_inequality, lemma_mul_is_commutative};
use vstd::prelude::*;

verus! {

/// Output dimensions of an aspect-preserving resize of a `width` by `height`
/// image whose longer edge is brought to `target` pixels: the long edge
/// becomes `target`, the short edge becomes `target` times the short-to-long
/// ratio, rounded down, but never below one pixel.
pub open spec fn resize_dims_spec(width: int, height: int, target: int) -> (int, int) {
    let shorter = if width < height { width } else { height };
    let longer = if width < height { height } else { width };
    let scaled = target * shorter / longer;
    let short_edge = if scaled < 1 { 1 } else { scaled };
    if width > height {
        (target, short_edge)
    } else {
        (short_edge, target)
    }
}

/// Computes the output dimensions of an aspect-preserving resize.
pub fn resize_dims(width: u32, height: u32, target: u32) -> (r: (u32, u32))
    requires
        1 <= width,
        1 <= height,
        1 <= target,
    ensures
        r.0 == resize_dims_spec(width as int, height as int, target as int).0,
        r.1 == resize_dims_spec(width as int, height as int, target as int).1,
        1 <= r.0 <= target,
        1 <= r.1 <= target,
{
    proof {
        lemma_resize_dims_fit(width as int, height as int, target as int);
    }
    let (shorter, longer): (u64, u64) = if width < height {
        (width as u64, height as u64)
    } else {
        (height as u64, width as u64)
    };
    proof {
        assert(target * shorter < u64::MAX) by (nonlinear_arith)
            requires
                target <= u32::MAX,
                shorter <= u32::MAX,
        ;
    }
    let scaled: u64 = target as u64 * shorter / longer;
    let short_edge: u32 = if scaled < 1 {
        1
    } else {
        proof {
            let t = target as int;
            let s = shorter as int;
            let l = longer as int;
            lemma_mul_inequality(s, l, t);
            lemma_mul_is_commutative(s, t);
            lemma_mul_is_commutative(l, t);
            lemma_multiply_divide_le(t * s, l, t);
        }
        scaled as u32
    };
    if width > height {
        (target, short_edge)
    } else {
        (short_edge, target)
    }
}

/// Both output dimensions of an aspect-preserving resize lie between one
/// pixel and the target edge length.
pub proof fn lemma_resize_dims_fit(width: int, height: int, target: int)
    requires
        1 <= width,
        1 <= height,
        1 <= target,
    ensures
        ({
            let (ow, oh) = resize_dims_spec(width, height, target);
            1 <= ow <= target && 1 <= oh <= target
        }),
{
    let shorter = if width < height { width } else { height };
    let longer = if width < height { height } else { width };
    let t = target;
    lemma_mul_inequality(shorter, longer, t);
    lemma_mul_is_commutative(shorter, t);
    lemma_mul_is_commutative(longer, t);
    lemma_multiply_divide_le(t * shorter, longer, t);
}

/// Aspect preservation within one pixel of rounding, for every source size
/// and target: the long output edge equals the target exactly, and the
/// short output edge differs from the aspect-exact real value
/// `target * shorter / longer` by strictly less than one pixel.  Whenever
/// that value is at least one pixel (so the one-pixel floor is inactive),
/// the short edge is exactly that value rounded down.
pub proof fn lemma_resize_preserves_aspect(width: int, height: int, target: int)
    requires
        1 <= width,
        1 <= height,
        1 <= target,
    ensures
        ({
            let (ow, oh) = resize_dims_spec(width, height, target);
            let shorter = if width < height { width } else { height };
            let longer = if width < height { height } else { width };
            let long_edge = if width > height { ow } else { oh };
            let short_edge = if width > height { oh } else { ow };
            &&& long_edge == target
            &&& (short_edge - 1) * longer < target * shorter
            &&& target * shorter < (short_edge + 1) * longer
            &&& target * shorter >= longer ==> short_edge * longer <= target * shorter
        }),
{
    let shorter = if width < height { width } else { height };
    let longer = if width < height { height } else { width };
    let t = target;
    let scaled = t * shorter / longer;
    lemma_fundamental_div_mod(t * shorter, longer);
    lemma_mod_bound(t * shorter, longer);
    assert(longer * scaled <= t * shorter < longer * scaled + longer);
    lemma_mul_is_commutative(longer, scaled);
    if t * shorter >= longer {
        // The scaled short edge is at least one pixel: the floor is inactive
        // and the output is the rounded-down exact value.
        lemma_div_is_ordered(longer, t * shorter, longer);
        lemma_div_by_self(longer);
        assert(scaled >= 1);
        assert((scaled + 1) * longer == scaled * longer + longer) by (nonlinear_arith);
        assert((scaled - 1) * longer < scaled * longer) by (nonlinear_arith)
            requires
                1 <= longer,
        ;
    } else {
        // The exact value lies strictly below one pixel and the output edge
        // is held at one pixel: still within one pixel either way.
        assert(1 <= t * shorter) by (nonlinear_arith)
            requires
                1 <= t,
                1 <= shorter,
        ;
        lemma_basic_div(t * shorter, longer);
        assert(scaled == 0);
        assert((1 + 1) * longer == longer + longer) by (nonlinear_arith);
        assert((1 - 1) * longer == 0) by (nonlinear_arith);
    }
}

/// What the Catmull-Rom resampler returns for a given source buffer and
/// output size; a pure function of its arguments.
pub uninterp spec fn resample_of(
    pixels: Seq<u8>,
    width: int,
    height: int,
    new_width: int,
    new_height: int,
) -> Seq<u8>;

/// Relies on `image::imageops::resize` with `FilterType::CatmullRom`: it
/// returns a buffer of exactly the requested dimensions whose content is a
/// pure function of the source pixels and the requested dimensions.
#[verifier::external_body]
pub(crate) fn resample(src: &Frame, new_width: u32, new_height: u32) -> (r: Frame)
    requires
        src@.wf(),
        1 <= new_width,
        1 <= new_height,
        4 * new_width * new_height <= usize::MAX,
    ensures
        r@.width == new_width,
        r@.height == new_height,
        r@.pixels == resample_of(
            src@.pixels,
            src@.width as int,
            src@.height as int,
            new_width as int,
            new_height as int,
        ),
        r@.pixels.len() == 4 * new_width * new_height,
{
    let buffer = image::ImageBuffer::<image::Rgba<u8>, Vec<u8>>::from_raw(
        src.width,
        src.height,
        src.pixels.clone(),
    ).unwrap();
    let out = image::imageops::resize(
        &buffer,
        new_width,
        new_height,
        image::imageops::FilterType::CatmullRom,
    );
    Frame { width: new_width, height: new_height, pixels: out.into_raw() }
}

/// Resizes a frame so that its longer edge becomes `target` pixels and its
/// aspect ratio is preserved up to rounding, with a one-pixel floor on the
/// short edge.
pub fn resize_frame(src: &Frame, target: u32) -> (r: Frame)
    requires
        src@.wf(),
        1 <= target,
        4 * target * target <= usize::MAX,
    ensures
        r@.wf(),
        r@.width == resize_dims_spec(src@.width as int, src@.height as int, target as int).0,
        r@.height == resize_dims_spec(src@.width as int, src@.height as int, target as int).1,
        r@.pixels == resample_of(
            src@.pixels,
            src@.width as int,
            src@.height as int,
            r@.width as int,
            r@.height as int,
        ),
{
    proof {
        lemma_resize_dims_fit(src@.width as int, src@.height as int, target as int);
    }
    let (new_width, new_height) = resize_dims(src.width, src.height, target);
    proof {
        assert(4 * new_width * new_height <= 4 * target * target) by (nonlinear_arith)
            requires
                1 <= new_width <= target,
                1 <= new_height <= target,
        ;
    }
    resample(src, new_width, new_height)
}

} // verus!
