use flipbook_packer::frame::Frame;
use flipbook_packer::slicer::{crop, image_to_frames, slice_lossless};

fn patterned_frame(width: u32, height: u32) -> Frame {
    let mut pixels = Vec::new();
    for y in 0..height {
        for x in 0..width {
            pixels.push((x * 7 + y * 13) as u8);
            pixels.push((x * 3 + y * 5) as u8);
            pixels.push((x + 2 * y) as u8);
            pixels.push(255);
        }
    }
    Frame::from_raw(width, height, pixels).unwrap()
}

fn quadrant_frame(size: u32, colors: [[u8; 4]; 4]) -> Frame {
    let half = size / 2;
    let mut pixels = Vec::new();
    for y in 0..size {
        for x in 0..size {
            let q = if y < half { if x < half { 0 } else { 1 } } else if x < half { 2 } else { 3 };
            pixels.extend_from_slice(&colors[q]);
        }
    }
    Frame::from_raw(size, size, pixels).unwrap()
}

#[test]
fn crop_extracts_exact_pixels() {
    let src = patterned_frame(4, 4);
    let sub = crop(&src, 1, 1, 2, 2);
    assert_eq!(sub.width, 2);
    assert_eq!(sub.height, 2);
    for y in 0..2u32 {
        for x in 0..2u32 {
            for c in 0..4u32 {
                assert_eq!(sub.byte_at(x, y, c), src.byte_at(1 + x, 1 + y, c));
            }
        }
    }
}

#[test]
fn lossless_slicing_quadrants() {
    // An 800x800 sheet in 2x2 cells: four 400x400 frames, each pixel
    // identical to its source quadrant.
    let colors = [[255, 0, 0, 255], [0, 255, 0, 255], [0, 0, 255, 255], [9, 8, 7, 6]];
    let sheet = quadrant_frame(800, colors);
    let frames = slice_lossless(2, 2, &sheet);
    assert_eq!(frames.len(), 4);
    for (i, f) in frames.iter().enumerate() {
        assert_eq!(f.width, 400);
        assert_eq!(f.height, 400);
        let expected: Vec<u8> = colors[i]
            .iter()
            .copied()
            .cycle()
            .take(4 * 400 * 400)
            .collect();
        assert_eq!(f.pixels, expected);
    }
}

#[test]
fn lossless_slicing_reassembles_source() {
    // Row-major reassembly of the slices reproduces the source exactly.
    let src = patterned_frame(8, 6);
    let frames = slice_lossless(3, 2, &src);
    assert_eq!(frames.len(), 6);
    for py in 0..6u32 {
        for px in 0..8u32 {
            let cell = (py / 2) * 2 + px / 4;
            let f = &frames[cell as usize];
            for c in 0..4u32 {
                assert_eq!(src.byte_at(px, py, c), f.byte_at(px % 4, py % 2, c));
            }
        }
    }
}

#[test]
fn lossless_slicing_truncates_remainder() {
    // A 9x5 sheet in 2x2 cells: 4x2 cells, trailing pixels dropped.
    let src = patterned_frame(9, 5);
    let frames = slice_lossless(2, 2, &src);
    assert_eq!(frames.len(), 4);
    for f in &frames {
        assert_eq!(f.width, 4);
        assert_eq!(f.height, 2);
    }
    assert_eq!(frames[3].byte_at(0, 0, 0), src.byte_at(4, 2, 0));
}

#[test]
fn grid_slice_with_resize_dims() {
    // A 2048x1024 sheet in 2 rows and 4 columns: 8 cells select the
    // 256-pixel tier; the old cell is 2048/4 by 1024/2 = 512x512, so every
    // cell resizes to 256x256 and the sheet is cut into eight such cells.
    let sheet = patterned_frame(2048, 1024);
    let frames = image_to_frames(2, 4, &sheet);
    assert_eq!(frames.len(), 8);
    for f in &frames {
        assert_eq!(f.width, 256);
        assert_eq!(f.height, 256);
        assert_eq!(f.pixels.len(), 4 * 256 * 256);
    }
}

#[test]
fn grid_slice_with_wide_cells() {
    // A 2048x512 sheet in 2 rows and 4 columns: the old cell is 512x256,
    // wider than tall, so it resizes to 256x128 under the 256-pixel tier.
    let sheet = patterned_frame(2048, 512);
    let frames = image_to_frames(2, 4, &sheet);
    assert_eq!(frames.len(), 8);
    for f in &frames {
        assert_eq!(f.width, 256);
        assert_eq!(f.height, 128);
        assert_eq!(f.pixels.len(), 4 * 256 * 128);
    }
}

#[test]
fn grid_slice_separates_cell_colors() {
    // Solid quadrant colors survive the whole-sheet resize into their cells.
    let colors = [[200, 10, 10, 255], [10, 200, 10, 255], [10, 10, 200, 255], [90, 90, 90, 255]];
    let sheet = quadrant_frame(256, colors);
    let frames = image_to_frames(2, 2, &sheet);
    assert_eq!(frames.len(), 4);
    for (i, f) in frames.iter().enumerate() {
        assert_eq!((f.width, f.height), (512, 512));
        // Sample the cell center, far from any quadrant boundary bleed.
        for c in 0..4u32 {
            let got = f.byte_at(256, 256, c) as i32;
            assert!((got - colors[i][c as usize] as i32).abs() <= 2);
        }
    }
}
