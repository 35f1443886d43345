use flipbook_packer::frame::Frame;

#[test]
fn from_raw_accepts_exact_buffer() {
    let f = Frame::from_raw(2, 3, vec![5u8; 24]).unwrap();
    assert_eq!(f.width, 2);
    assert_eq!(f.height, 3);
    assert_eq!(f.pixels.len(), 24);
}

#[test]
fn from_raw_rejects_wrong_length() {
    assert!(Frame::from_raw(2, 3, vec![5u8; 23]).is_none());
    assert!(Frame::from_raw(2, 3, vec![5u8; 25]).is_none());
}

#[test]
fn from_raw_rejects_empty_dimensions() {
    assert!(Frame::from_raw(0, 3, vec![]).is_none());
    assert!(Frame::from_raw(3, 0, vec![]).is_none());
}

#[test]
fn byte_at_reads_row_major_rgba() {
    let mut pixels = Vec::new();
    for p in 0..6u8 {
        pixels.extend_from_slice(&[4 * p, 4 * p + 1, 4 * p + 2, 4 * p + 3]);
    }
    let f = Frame::from_raw(3, 2, pixels).unwrap();
    // Pixel (x, y) holds bytes 4 * (y * width + x) onward.
    assert_eq!(f.byte_at(0, 0, 0), 0);
    assert_eq!(f.byte_at(2, 0, 1), 9);
    assert_eq!(f.byte_at(0, 1, 2), 14);
    assert_eq!(f.byte_at(2, 1, 3), 23);
}
