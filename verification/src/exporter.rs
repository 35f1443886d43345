//! The export-to-sequence operation: a grid sheet becomes one lossless,
//! full-resolution frame file per cell, numbered in row-major order, bound
//! for a caller-chosen destination folder.

use crate::frame::Frame;
use crate::naming::{frame_file_name, frame_file_name_spec};
use crate::slicer::{is_crop_of, slice_lossless};
use vstd::prelude::*;

verus! {

/// A finished export-to-sequence operation: the destination folder, the
/// cropped frames in row-major order, and the file name each frame is to be
/// written under (`file_names[i]` names `frames[i]`).
pub struct SequenceExport {
    pub folder: String,
    pub frames: Vec<Frame>,
    pub file_names: Vec<String>,
}

/// The export-to-sequence operation: slices a grid sheet into
/// `rows * columns` full-resolution cells, without resizing, and numbers
/// them `"<base> (1).png"` onward in row-major order.  A missing destination
/// means the user cancelled the folder selection; the operation is then
/// abandoned as a no-op and nothing is produced for writing.
#[verifier::loop_isolation(false)]
pub fn export_sequence(
    rows: u32,
    columns: u32,
    image: &Frame,
    base_name: &str,
    destination: Option<String>,
) -> (r: Option<SequenceExport>)
    requires
        image@.wf(),
        1 <= rows <= 256,
        1 <= columns <= 256,
        columns <= image@.width,
        rows <= image@.height,
    ensures
        r is Some <==> destination is Some,
        r is Some ==> {
            let e = r->0;
            &&& e.folder == destination->0
            &&& e.frames@.len() == rows * columns
            &&& e.file_names@.len() == rows * columns
            &&& forall|i: int|
                0 <= i < e.frames@.len() ==> {
                    let cw = image@.width as int / (columns as int);
                    let ch = image@.height as int / (rows as int);
                    &&& (#[trigger] e.frames@[i])@.wf()
                    &&& e.frames@[i]@.width == cw
                    &&& e.frames@[i]@.height == ch
                    &&& is_crop_of(e.frames@[i]@, image@, (i % (columns as int)) * cw, (i / (
                    columns as int)) * ch)
                }
            &&& forall|i: int|
                0 <= i < e.file_names@.len() ==> (#[trigger] e.file_names@[i])@
                    == frame_file_name_spec(base_name@, i + 1)
        },
{
    match destination {
        Some(folder) => {
            let frames = slice_lossless(rows, columns, image);
            proof {
                assert((rows as int) * (columns as int) <= 65536) by (nonlinear_arith)
                    requires
                        1 <= rows <= 256,
                        1 <= columns <= 256,
                ;
            }
            let n: usize = frames.len();
            let mut file_names: Vec<String> = Vec::new();
            let mut i: usize = 0;
            while i < n
                invariant
                    i <= n,
                    file_names@.len() == i,
                    forall|k: int|
                        0 <= k < i ==> (#[trigger] file_names@[k])@ == frame_file_name_spec(
                            base_name@,
                            k + 1,
                        ),
                decreases n - i,
            {
                let name = frame_file_name(base_name, (i as u32) + 1);
                file_names.push(name);
                i = i + 1;
            }
            Some(SequenceExport { folder, frames, file_names })
        },
        None => None,
    }
}

} // verus!
