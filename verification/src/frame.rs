//! The frame data model: an owned RGBA8 pixel buffer with its dimensions,
//! and the ghost view that all contracts in this crate are stated over.

use vstd::prelude::*;

verus! {

/// Ghost model of an RGBA8 image: a flat byte sequence in row-major order,
/// four bytes (red, green, blue, alpha) per pixel.
pub ghost struct FrameView {
    pub width: nat,
    pub height: nat,
    pub pixels: Seq<u8>,
}

/// Flat index of byte channel `c` of the pixel at column `x`, row `y` in a
/// row-major RGBA8 buffer that is `width` pixels wide.
pub open spec fn pixel_index(width: int, x: int, y: int, c: int) -> int {
    4 * (y * width + x) + c
}

impl FrameView {
    /// A well-formed image is at least one pixel in each dimension and holds
    /// exactly four bytes per pixel.
    pub open spec fn wf(self) -> bool {
        &&& 1 <= self.width
        &&& 1 <= self.height
        &&& self.pixels.len() == 4 * self.width * self.height
    }

    /// Byte channel `c` (0 red, 1 green, 2 blue, 3 alpha) of the pixel at
    /// column `x`, row `y`.
    pub open spec fn byte_at(self, x: int, y: int, c: int) -> u8 {
        self.pixels[pixel_index(self.width as int, x, y, c)]
    }
}

/// Every in-bounds pixel channel has a flat index below the buffer length.
pub proof fn lemma_pixel_index_bounds(width: int, height: int, x: int, y: int, c: int)
    by (nonlinear_arith)
    requires
        0 <= x < width,
        0 <= y < height,
        0 <= c < 4,
    ensures
        0 <= pixel_index(width, x, y, c) < 4 * width * height,
        pixel_index(width, x, y, c) == 4 * (y * width + x) + c,
{
}

/// An owned RGBA8 image buffer: `pixels` holds the rows top to bottom, four
/// bytes per pixel.  One `Frame` is one animation cell, a grid sheet, or a
/// packed atlas canvas.
pub struct Frame {
    pub width: u32,
    pub height: u32,
    pub pixels: Vec<u8>,
}

impl View for Frame {
    type V = FrameView;

    open spec fn view(&self) -> FrameView {
        FrameView { width: self.width as nat, height: self.height as nat, pixels: self.pixels@ }
    }
}

/// The ghost views of a sequence of frames.
pub open spec fn views_of(frames: Seq<Frame>) -> Seq<FrameView> {
    frames.map_values(|f: Frame| f@)
}

impl Frame {
    /// Builds a frame from raw parts, accepting exactly the buffers that hold
    /// four bytes per pixel of a nonempty image.
    pub fn from_raw(width: u32, height: u32, pixels: Vec<u8>) -> (r: Option<Frame>)
        ensures
            r is Some <==> (1 <= width && 1 <= height && pixels@.len() == 4 * width * height),
            r is Some ==> r->0@ == (FrameView {
                width: width as nat,
                height: height as nat,
                pixels: pixels@,
            }) && r->0@.wf(),
    {
        proof {
            assert(4 * (width as int) * (height as int) < u128::MAX) by (nonlinear_arith);
        }
        let expected: u128 = 4u128 * (width as u128) * (height as u128);
        if width >= 1 && height >= 1 && pixels.len() as u128 == expected {
            Some(Frame { width, height, pixels })
        } else {
            None
        }
    }

    /// A fully transparent canvas: every byte of every pixel is zero.
    pub fn new_transparent(width: u32, height: u32) -> (r: Frame)
        requires
            1 <= width,
            1 <= height,
            4 * width * height <= usize::MAX,
        ensures
            r@.wf(),
            r@.width == width,
            r@.height == height,
            r@.pixels =~= Seq::new(4 * width as nat * height as nat, |i: int| 0u8),
    {
        let total: u64 = 4u64 * (width as u64) * (height as u64);
        let mut pixels: Vec<u8> = Vec::new();
        let mut i: u64 = 0;
        while i < total
            invariant
                i <= total,
                total == 4 * width * height,
                pixels@.len() == i,
                forall|j: int| 0 <= j < i ==> pixels@[j] == 0u8,
            decreases total - i,
        {
            pixels.push(0u8);
            i = i + 1;
        }
        Frame { width, height, pixels }
    }

    /// Reads one byte channel of one pixel; lets callers outside the library
    /// observe pixel content.
    pub fn byte_at(&self, x: u32, y: u32, c: u32) -> (r: u8)
        requires
            self@.wf(),
            x < self@.width,
            y < self@.height,
            c < 4,
        ensures
            r == self@.byte_at(x as int, y as int, c as int),
    {
        proof {
            lemma_pixel_index_bounds(
                self@.width as int,
                self@.height as int,
                x as int,
                y as int,
                c as int,
            );
        }
        // Reading the length records that the buffer, hence the index, fits in usize.
        let _len: usize = self.pixels.len();
        let idx: u64 = 4u64 * ((y as u64) * (self.width as u64) + (x as u64)) + (c as u64);
        self.pixels[idx as usize]
    }
}

} // verus!
