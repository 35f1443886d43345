//! Frame-size policy: maps a frame count to a tier of per-frame pixel size
//! and atlas grid geometry.

use vstd::prelude::*;

verus! {

/// Target geometry for one packing operation: the pixel edge length of one
/// frame cell, the number of cells per canvas row, and the total cell count.
#[derive(Clone, Copy, Debug, PartialEq, Eq, Structural)]
pub struct Tier {
    pub frame_size: u32,
    pub slots_per_row: u32,
    pub total_slots: u32,
}

/// The tier selected for a given frame count: more than 16 frames get
/// 128-pixel cells on an 8x8 grid, 5 to 16 frames get 256-pixel cells on a
/// 4x4 grid, and up to 4 frames get 512-pixel cells on a 2x2 grid.
pub open spec fn tier_for_spec(frame_count: int) -> Tier {
    if frame_count > 16 {
        Tier { frame_size: 128, slots_per_row: 8, total_slots: 64 }
    } else if frame_count > 4 {
        Tier { frame_size: 256, slots_per_row: 4, total_slots: 16 }
    } else {
        Tier { frame_size: 512, slots_per_row: 2, total_slots: 4 }
    }
}

/// Selects the tier for a frame count.  This is the single tier computation
/// shared by frame sizing and atlas layout, so the resize target and the
/// placement grid can never drift apart.
pub fn tier_for(frame_count: usize) -> (t: Tier)
    requires
        1 <= frame_count,
    ensures
        t == tier_for_spec(frame_count as int),
        t.frame_size == 128 <==> frame_count > 16,
        t.frame_size == 256 <==> 4 < frame_count <= 16,
        t.frame_size == 512 <==> frame_count <= 4,
{
    if frame_count > 16 {
        Tier { frame_size: 128, slots_per_row: 8, total_slots: 64 }
    } else if frame_count > 4 {
        Tier { frame_size: 256, slots_per_row: 4, total_slots: 16 }
    } else {
        Tier { frame_size: 512, slots_per_row: 2, total_slots: 4 }
    }
}

/// Every tier's grid is square: its total slot count is the square of its
/// slots-per-row count, and equals the upper end of the frame-count range
/// that selects the tier (64, 16 and 4 frames respectively), so a frame
/// count within its tier's range always fits on the canvas.
pub proof fn lemma_tier_capacity(frame_count: int)
    requires
        1 <= frame_count,
    ensures
        ({
            let t = tier_for_spec(frame_count);
            &&& t.slots_per_row * t.slots_per_row == t.total_slots
            &&& frame_count > 16 ==> t.total_slots == 64
            &&& 4 < frame_count <= 16 ==> t.total_slots == 16
            &&& frame_count <= 4 ==> t.total_slots == 4
            &&& frame_count <= 64 ==> frame_count <= t.total_slots
        }),
{
}

} // verus!
