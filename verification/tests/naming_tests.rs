use flipbook_packer::exporter::export_sequence;
use flipbook_packer::frame::Frame;
use flipbook_packer::naming::frame_file_name;

fn plain_frame(width: u32, height: u32) -> Frame {
    let pixels = vec![7u8; 4 * width as usize * height as usize];
    Frame::from_raw(width, height, pixels).unwrap()
}

#[test]
fn file_name_single_digit() {
    assert_eq!(frame_file_name("sheet", 1), "sheet (1).png");
}

#[test]
fn file_name_multiple_digits() {
    assert_eq!(frame_file_name("run", 12), "run (12).png");
    assert_eq!(frame_file_name("run", 305), "run (305).png");
}

#[test]
fn file_name_empty_base() {
    assert_eq!(frame_file_name("", 2), " (2).png");
}

#[test]
fn export_sequence_numbers_frames_from_one() {
    let sheet = plain_frame(8, 8);
    let export = export_sequence(2, 2, &sheet, "sheet", Some(String::from("out"))).unwrap();
    assert_eq!(export.folder, "out");
    assert_eq!(export.frames.len(), 4);
    assert_eq!(export.file_names.len(), 4);
    let expected = ["sheet (1).png", "sheet (2).png", "sheet (3).png", "sheet (4).png"];
    for (name, want) in export.file_names.iter().zip(expected.iter()) {
        assert_eq!(name, want);
    }
}

#[test]
fn export_sequence_cancelled_is_noop() {
    let sheet = plain_frame(8, 8);
    assert!(export_sequence(2, 2, &sheet, "sheet", None).is_none());
}
