use flipbook_packer::frame::Frame;
use flipbook_packer::resize::{resize_dims, resize_frame};

fn solid_frame(width: u32, height: u32, rgba: [u8; 4]) -> Frame {
    let mut pixels = Vec::new();
    for _ in 0..(width as usize) * (height as usize) {
        pixels.extend_from_slice(&rgba);
    }
    Frame::from_raw(width, height, pixels).unwrap()
}

#[test]
fn resize_dims_square() {
    assert_eq!(resize_dims(1000, 1000, 256), (256, 256));
}

#[test]
fn resize_dims_wide() {
    assert_eq!(resize_dims(200, 100, 128), (128, 64));
}

#[test]
fn resize_dims_tall() {
    assert_eq!(resize_dims(100, 200, 128), (64, 128));
}

#[test]
fn resize_dims_rounds_down() {
    // 128 * 200 / 300 = 85.33..., truncated toward zero.
    assert_eq!(resize_dims(300, 200, 128), (128, 85));
}

#[test]
fn resize_dims_extreme_aspect_floors_at_one_pixel() {
    // 512 * 1 / 1000 would be 0; the short edge is held at one pixel.
    assert_eq!(resize_dims(1000, 1, 512), (512, 1));
    assert_eq!(resize_dims(1, 1000, 512), (1, 512));
}

#[test]
fn resize_frame_brings_long_edge_to_target() {
    let src = solid_frame(10, 5, [10, 200, 30, 255]);
    let out = resize_frame(&src, 8);
    assert_eq!(out.width, 8);
    assert_eq!(out.height, 4);
    assert_eq!(out.pixels.len(), 4 * 8 * 4);
    // A solid color survives resampling up to one-off rounding.
    for chunk in out.pixels.chunks(4) {
        assert!(chunk[0] as i32 - 10 <= 2 && 10 - (chunk[0] as i32) <= 2);
        assert!((chunk[1] as i32 - 200).abs() <= 2);
        assert!((chunk[2] as i32 - 30).abs() <= 2);
        assert!((chunk[3] as i32 - 255).abs() <= 2);
    }
}

#[test]
fn resize_frame_twenty_sequence_dims() {
    // Twenty frames of varying aspect ratio all get a 128-pixel long edge.
    let mut frames = Vec::new();
    for k in 0..20u32 {
        frames.push(solid_frame(100 + 20 * k, 100, [k as u8, 0, 0, 255]));
    }
    let resized = flipbook_packer::sequence::sequence_to_frames(frames);
    assert_eq!(resized.len(), 20);
    for (k, f) in resized.iter().enumerate() {
        let w = 100 + 20 * k as u32;
        if w > 100 {
            assert_eq!(f.width, 128);
            assert_eq!(f.height, 128 * 100 / w);
        } else {
            assert_eq!((f.width, f.height), (128, 128));
        }
    }
}
