//! Grid slicing: partitioning a composite sheet into rows-by-columns cells,
//! either after a whole-sheet resize (for packing) or at full resolution
//! (for lossless export), and the lossless round-trip law.

use crate::frame::{lemma_pixel_index_bounds, pixel_index, Frame, FrameView};
use crate::resize::{resample_of, resize_dims, resize_dims_spec};
use crate::tier::{tier_for, tier_for_spec};
use vstd::arithmetic::div_mod::{
    lemma_div_non_zero, lemma_fundamental_div_mod, lemma_fundamental_div_mod_converse,
    lemma_mod_bound, lemma_multiply_divide_lt,
};
use vstd::arithmetic::mul::lemma_mul_is_commutative;
use vstd::prelude::*;

verus! {

/// `sub` is the rectangle of `src` whose top-left pixel lies at column `x0`,
/// row `y0`: every channel of every pixel of `sub` equals the corresponding
/// channel of the source pixel it was cut from.
pub open spec fn is_crop_of(sub: FrameView, src: FrameView, x0: int, y0: int) -> bool {
    &&& 0 <= x0
    &&& 0 <= y0
    &&& x0 + sub.width <= src.width
    &&& y0 + sub.height <= src.height
    &&& forall|x: int, y: int, c: int|
        0 <= x < sub.width && 0 <= y < sub.height && 0 <= c < 4 ==> #[trigger] sub.byte_at(x, y, c)
            == src.byte_at(x0 + x, y0 + y, c)
}

/// The first `upto_y` full rows, and the first `upto_x` pixels of row
/// `upto_y`, of a `w`-wide crop taken at `(x0, y0)` have been written to
/// `out` in row-major RGBA8 order.
pub open spec fn crop_prefix_copied(
    out: Seq<u8>,
    src: FrameView,
    x0: int,
    y0: int,
    w: int,
    upto_y: int,
    upto_x: int,
) -> bool {
    forall|x2: int, y2: int, c2: int|
        #![trigger pixel_index(w, x2, y2, c2)]
        0 <= x2 < w && 0 <= c2 < 4 && (0 <= y2 < upto_y || (y2 == upto_y && 0 <= x2 < upto_x))
            ==> 0 <= pixel_index(w, x2, y2, c2) < out.len() && out[pixel_index(w, x2, y2, c2)]
            == src.byte_at(x0 + x2, y0 + y2, c2)
}

/// Flat indices of a row-major buffer respect the row-major pixel order.
proof fn lemma_flat_index_before(w: int, x1: int, y1: int, c1: int, x: int, y: int)
    by (nonlinear_arith)
    requires
        0 <= x1 < w,
        0 <= c1 < 4,
        0 <= y1,
        0 <= x,
        0 <= y,
        y1 < y || (y1 == y && x1 < x),
    ensures
        4 * (y1 * w + x1) + c1 < 4 * (y * w + x),
{
}

/// Appends the four channel bytes of the source pixel at `(sx, sy)`.
fn copy_pixel(src: &Frame, sx: u32, sy: u32, out: &mut Vec<u8>)
    requires
        src@.wf(),
        sx < src@.width,
        sy < src@.height,
    ensures
        final(out)@.len() == old(out)@.len() + 4,
        forall|j: int| 0 <= j < old(out)@.len() ==> final(out)@[j] == old(out)@[j],
        forall|c: int|
            0 <= c < 4 ==> final(out)@[old(out)@.len() + c] == src@.byte_at(
                sx as int,
                sy as int,
                c,
            ),
{
    proof {
        lemma_pixel_index_bounds(src@.width as int, src@.height as int, sx as int, sy as int, 0);
        lemma_pixel_index_bounds(src@.width as int, src@.height as int, sx as int, sy as int, 1);
        lemma_pixel_index_bounds(src@.width as int, src@.height as int, sx as int, sy as int, 2);
        lemma_pixel_index_bounds(src@.width as int, src@.height as int, sx as int, sy as int, 3);
    }
    // Reading the length records that the buffer, hence every pixel index, fits in usize.
    let _len: usize = src.pixels.len();
    let base: u64 = 4u64 * ((sy as u64) * (src.width as u64) + (sx as u64));
    out.push(src.pixels[base as usize]);
    out.push(src.pixels[(base + 1) as usize]);
    out.push(src.pixels[(base + 2) as usize]);
    out.push(src.pixels[(base + 3) as usize]);
}

/// Cuts the `w` by `h` rectangle whose top-left corner lies at `(x0, y0)`
/// out of `src`, pixel for pixel.
#[verifier::loop_isolation(false)]
pub fn crop(src: &Frame, x0: u32, y0: u32, w: u32, h: u32) -> (r: Frame)
    requires
        src@.wf(),
        1 <= w,
        1 <= h,
        x0 + w <= src@.width,
        y0 + h <= src@.height,
    ensures
        r@.wf(),
        r@.width == w,
        r@.height == h,
        is_crop_of(r@, src@, x0 as int, y0 as int),
{
    let mut out: Vec<u8> = Vec::new();
    let mut y: u32 = 0;
    while y < h
        invariant
            y <= h,
            out@.len() == 4 * ((y as int) * (w as int)),
            crop_prefix_copied(out@, src@, x0 as int, y0 as int, w as int, y as int, 0),
        decreases h - y,
    {
        let mut x: u32 = 0;
        while x < w
            invariant
                x <= w,
                y < h,
                out@.len() == 4 * ((y as int) * (w as int) + (x as int)),
                crop_prefix_copied(out@, src@, x0 as int, y0 as int, w as int, y as int, x as int),
            decreases w - x,
        {
            let ghost out0 = out@;
            copy_pixel(src, x0 + x, y0 + y, &mut out);
            proof {
                let wi = w as int;
                let xi = x as int;
                let yi = y as int;
                assert forall|x2: int, y2: int, c2: int|
                    #![trigger pixel_index(wi, x2, y2, c2)]
                    0 <= x2 < wi && 0 <= c2 < 4 && (0 <= y2 < yi || (y2 == yi && 0 <= x2 < xi
                        + 1)) implies 0 <= pixel_index(wi, x2, y2, c2) < out@.len() && out@[
                    pixel_index(wi, x2, y2, c2)] == src@.byte_at(
                    x0 + x2,
                    y0 + y2,
                    c2,
                ) by {
                    if y2 < yi || x2 < xi {
                        lemma_flat_index_before(wi, x2, y2, c2, xi, yi);
                        assert(out0[pixel_index(wi, x2, y2, c2)] == src@.byte_at(
                            x0 + x2,
                            y0 + y2,
                            c2,
                        ));
                    } else {
                        assert(pixel_index(wi, x2, y2, c2) == out0.len() + c2);
                    }
                };
            }
            x = x + 1;
        }
        proof {
            assert(((y as int) + 1) * (w as int) == (y as int) * (w as int) + (w as int))
                by (nonlinear_arith);
        }
        y = y + 1;
    }
    proof {
        lemma_mul_is_commutative(h as int, w as int);
        assert(4 * (w as int) * (h as int) == 4 * ((w as int) * (h as int))) by (nonlinear_arith);
    }
    Frame { width: w, height: h, pixels: out }
}

/// The cell dimensions used when slicing a grid sheet for packing: the
/// original integer-division cell size, aspect-resized so that its longer
/// edge equals the tier's frame size.
pub open spec fn sheet_cell_dims(img: FrameView, rows: int, columns: int) -> (int, int) {
    resize_dims_spec(
        img.width as int / columns,
        img.height as int / rows,
        tier_for_spec(rows * columns).frame_size as int,
    )
}

/// The whole grid sheet after the single whole-image resize that brings each
/// cell to the tier's frame size.
pub open spec fn resized_sheet(img: FrameView, rows: int, columns: int) -> FrameView {
    let (cw, ch) = sheet_cell_dims(img, rows, columns);
    FrameView {
        width: (cw * columns) as nat,
        height: (ch * rows) as nat,
        pixels: resample_of(img.pixels, img.width as int, img.height as int, cw * columns, ch
            * rows),
    }
}

/// Slices a grid sheet into `rows * columns` frames for packing: the sheet
/// is resized as a whole so each cell's longer edge equals the tier's frame
/// size, then cut into equal cells, addressed row-major from the top left.
#[verifier::loop_isolation(false)]
pub fn image_to_frames(rows: u32, columns: u32, image: &Frame) -> (r: Vec<Frame>)
    requires
        image@.wf(),
        1 <= rows <= 256,
        1 <= columns <= 256,
        columns <= image@.width,
        rows <= image@.height,
        1048576 * rows * columns <= usize::MAX,
    ensures
        r@.len() == rows * columns,
        forall|i: int|
            0 <= i < rows * columns ==> {
                let (cw, ch) = sheet_cell_dims(image@, rows as int, columns as int);
                &&& (#[trigger] r@[i])@.wf()
                &&& r@[i]@.width == cw
                &&& r@[i]@.height == ch
                &&& is_crop_of(
                    r@[i]@,
                    resized_sheet(image@, rows as int, columns as int),
                    (i % (columns as int)) * cw,
                    (i / (columns as int)) * ch,
                )
            },
{
    proof {
        assert(1 <= (rows as int) * (columns as int) <= 65536) by (nonlinear_arith)
            requires
                1 <= rows <= 256,
                1 <= columns <= 256,
        ;
    }
    let frame_count: u32 = rows * columns;
    let tier = tier_for(frame_count as usize);
    let old_cell_w: u32 = image.width / columns;
    let old_cell_h: u32 = image.height / rows;
    proof {
        lemma_div_non_zero(image@.width as int, columns as int);
        lemma_div_non_zero(image@.height as int, rows as int);
    }
    let (cell_w, cell_h) = resize_dims(old_cell_w, old_cell_h, tier.frame_size);
    proof {
        assert(1 <= (cell_w as int) * (columns as int) <= 512 * 256 && 1 <= (cell_h as int) * (
        rows as int) <= 512 * 256) by (nonlinear_arith)
            requires
                1 <= cell_w <= 512,
                1 <= cell_h <= 512,
                1 <= columns <= 256,
                1 <= rows <= 256,
        ;
        assert(4 * ((cell_w as int) * (columns as int)) * ((cell_h as int) * (rows as int))
            <= 1048576 * (rows as int) * (columns as int)) by (nonlinear_arith)
            requires
                1 <= cell_w <= 512,
                1 <= cell_h <= 512,
                1 <= columns,
                1 <= rows,
        ;
    }
    let sheet_w: u32 = cell_w * columns;
    let sheet_h: u32 = cell_h * rows;
    let sheet = crate::resize::resample(image, sheet_w, sheet_h);
    let mut frames: Vec<Frame> = Vec::new();
    let mut i: u32 = 0;
    while i < frame_count
        invariant
            i <= frame_count,
            frames@.len() == i,
            sheet@ == resized_sheet(image@, rows as int, columns as int),
            sheet@.wf(),
            sheet@.width == (cell_w as int) * (columns as int),
            sheet@.height == (cell_h as int) * (rows as int),
            forall|k: int|
                0 <= k < i ==> {
                    let (cw, ch) = sheet_cell_dims(image@, rows as int, columns as int);
                    &&& (#[trigger] frames@[k])@.wf()
                    &&& frames@[k]@.width == cw
                    &&& frames@[k]@.height == ch
                    &&& is_crop_of(
                        frames@[k]@,
                        resized_sheet(image@, rows as int, columns as int),
                        (k % (columns as int)) * cw,
                        (k / (columns as int)) * ch,
                    )
                },
        decreases frame_count - i,
    {
        let row: u32 = i / columns;
        let col: u32 = i % columns;
        proof {
            lemma_mod_bound(i as int, columns as int);
            lemma_mul_is_commutative(columns as int, rows as int);
            lemma_multiply_divide_lt(i as int, columns as int, rows as int);
            assert((col as int) * (cell_w as int) + cell_w <= (columns as int) * (cell_w as int)
                && (row as int) * (cell_h as int) + cell_h <= (rows as int) * (cell_h as int))
                by (nonlinear_arith)
                requires
                    0 <= col < columns,
                    0 <= row < rows,
                    0 <= cell_w,
                    0 <= cell_h,
            ;
            lemma_mul_is_commutative(columns as int, cell_w as int);
            lemma_mul_is_commutative(rows as int, cell_h as int);
        }
        let cell = crop(&sheet, col * cell_w, row * cell_h, cell_w, cell_h);
        frames.push(cell);
        i = i + 1;
    }
    frames
}

/// Slices a grid sheet into `rows * columns` full-resolution frames, with no
/// resizing: cell sizes come from integer division (trailing pixels on the
/// right and bottom edges are dropped when the sheet does not divide
/// evenly), addressed row-major from the top left.
#[verifier::loop_isolation(false)]
pub fn slice_lossless(rows: u32, columns: u32, image: &Frame) -> (r: Vec<Frame>)
    requires
        image@.wf(),
        1 <= rows <= 256,
        1 <= columns <= 256,
        columns <= image@.width,
        rows <= image@.height,
    ensures
        r@.len() == rows * columns,
        forall|i: int|
            0 <= i < rows * columns ==> {
                let cw = image@.width as int / (columns as int);
                let ch = image@.height as int / (rows as int);
                &&& (#[trigger] r@[i])@.wf()
                &&& r@[i]@.width == cw
                &&& r@[i]@.height == ch
                &&& is_crop_of(r@[i]@, image@, (i % (columns as int)) * cw, (i / (columns as int))
                    * ch)
            },
{
    proof {
        assert(1 <= (rows as int) * (columns as int) <= 65536) by (nonlinear_arith)
            requires
                1 <= rows <= 256,
                1 <= columns <= 256,
        ;
        lemma_div_non_zero(image@.width as int, columns as int);
        lemma_div_non_zero(image@.height as int, rows as int);
    }
    let frame_count: u32 = rows * columns;
    let cell_w: u32 = image.width / columns;
    let cell_h: u32 = image.height / rows;
    proof {
        lemma_fundamental_div_mod(image@.width as int, columns as int);
        lemma_mod_bound(image@.width as int, columns as int);
        lemma_fundamental_div_mod(image@.height as int, rows as int);
        lemma_mod_bound(image@.height as int, rows as int);
    }
    let mut frames: Vec<Frame> = Vec::new();
    let mut i: u32 = 0;
    while i < frame_count
        invariant
            i <= frame_count,
            frames@.len() == i,
            cell_w == image@.width as int / (columns as int),
            cell_h == image@.height as int / (rows as int),
            (columns as int) * (cell_w as int) <= image@.width,
            (rows as int) * (cell_h as int) <= image@.height,
            forall|k: int|
                0 <= k < i ==> {
                    let cw = image@.width as int / (columns as int);
                    let ch = image@.height as int / (rows as int);
                    &&& (#[trigger] frames@[k])@.wf()
                    &&& frames@[k]@.width == cw
                    &&& frames@[k]@.height == ch
                    &&& is_crop_of(frames@[k]@, image@, (k % (columns as int)) * cw, (k / (
                    columns as int)) * ch)
                },
        decreases frame_count - i,
    {
        let row: u32 = i / columns;
        let col: u32 = i % columns;
        proof {
            lemma_mod_bound(i as int, columns as int);
            lemma_mul_is_commutative(columns as int, rows as int);
            lemma_multiply_divide_lt(i as int, columns as int, rows as int);
            assert((col as int) * (cell_w as int) + cell_w <= (columns as int) * (cell_w as int)
                && (row as int) * (cell_h as int) + cell_h <= (rows as int) * (cell_h as int))
                by (nonlinear_arith)
                requires
                    0 <= col < columns,
                    0 <= row < rows,
                    0 <= cell_w,
                    0 <= cell_h,
            ;
            lemma_mul_is_commutative(columns as int, cell_w as int);
            lemma_mul_is_commutative(rows as int, cell_h as int);
        }
        let cell = crop(image, col * cell_w, row * cell_h, cell_w, cell_h);
        frames.push(cell);
        i = i + 1;
    }
    frames
}

/// Lossless round trip: when a sheet's dimensions divide evenly into the
/// grid, the frames cut by the lossless slicer reassemble the sheet exactly;
/// every source pixel reappears, unchanged, at its row-major grid address.
pub proof fn lemma_slice_roundtrip(src: FrameView, frames: Seq<FrameView>, rows: int, columns: int)
    requires
        src.wf(),
        1 <= rows,
        1 <= columns,
        columns <= src.width,
        rows <= src.height,
        src.width as int % columns == 0,
        src.height as int % rows == 0,
        frames.len() == rows * columns,
        forall|i: int|
            0 <= i < rows * columns ==> {
                let cw = src.width as int / columns;
                let ch = src.height as int / rows;
                &&& (#[trigger] frames[i]).width == cw
                &&& frames[i].height == ch
                &&& is_crop_of(frames[i], src, (i % columns) * cw, (i / columns) * ch)
            },
    ensures
        forall|px: int, py: int, c: int|
            0 <= px < src.width && 0 <= py < src.height && 0 <= c < 4 ==> {
                let cw = src.width as int / columns;
                let ch = src.height as int / rows;
                #[trigger] src.byte_at(px, py, c) == frames[(py / ch) * columns + (px / cw)]
                    .byte_at(px % cw, py % ch, c)
            },
{
    let cw = src.width as int / columns;
    let ch = src.height as int / rows;
    lemma_div_non_zero(src.width as int, columns);
    lemma_div_non_zero(src.height as int, rows);
    lemma_fundamental_div_mod(src.width as int, columns);
    lemma_fundamental_div_mod(src.height as int, rows);
    assert(src.width == columns * cw);
    assert(src.height == rows * ch);
    assert forall|px: int, py: int, c: int|
        0 <= px < src.width && 0 <= py < src.height && 0 <= c < 4 implies {
        let cwl = src.width as int / columns;
        let chl = src.height as int / rows;
        #[trigger] src.byte_at(px, py, c) == frames[(py / chl) * columns + (px / cwl)].byte_at(
            px % cwl,
            py % chl,
            c,
        )
    } by {
        let qx = px / cw;
        let rx = px % cw;
        let qy = py / ch;
        let ry = py % ch;
        lemma_fundamental_div_mod(px, cw);
        lemma_mod_bound(px, cw);
        lemma_fundamental_div_mod(py, ch);
        lemma_mod_bound(py, ch);
        lemma_mul_is_commutative(columns, cw);
        lemma_mul_is_commutative(rows, ch);
        lemma_multiply_divide_lt(px, cw, columns);
        lemma_multiply_divide_lt(py, ch, rows);
        let i = qy * columns + qx;
        assert(0 <= i < rows * columns) by (nonlinear_arith)
            requires
                0 <= qx < columns,
                0 <= qy < rows,
                i == qy * columns + qx,
        ;
        lemma_fundamental_div_mod_converse(i, columns, qy, qx);
        assert(is_crop_of(frames[i], src, qx * cw, qy * ch));
        assert(frames[i].byte_at(rx, ry, c) == src.byte_at(qx * cw + rx, qy * ch + ry, c));
        lemma_mul_is_commutative(qx, cw);
        lemma_mul_is_commutative(qy, ch);
        assert(qx * cw + rx == px);
        assert(qy * ch + ry == py);
    }
}

} // verus!
