use flipbook_packer::tier::tier_for;

#[test]
fn tier_single_frame() {
    let t = tier_for(1);
    assert_eq!(t.frame_size, 512);
    assert_eq!(t.slots_per_row, 2);
    assert_eq!(t.total_slots, 4);
}

#[test]
fn tier_boundary_four() {
    let t = tier_for(4);
    assert_eq!(t.frame_size, 512);
    assert_eq!(t.slots_per_row, 2);
    assert_eq!(t.total_slots, 4);
}

#[test]
fn tier_boundary_five() {
    let t = tier_for(5);
    assert_eq!(t.frame_size, 256);
    assert_eq!(t.slots_per_row, 4);
    assert_eq!(t.total_slots, 16);
}

#[test]
fn tier_boundary_sixteen() {
    let t = tier_for(16);
    assert_eq!(t.frame_size, 256);
    assert_eq!(t.slots_per_row, 4);
    assert_eq!(t.total_slots, 16);
}

#[test]
fn tier_boundary_seventeen() {
    let t = tier_for(17);
    assert_eq!(t.frame_size, 128);
    assert_eq!(t.slots_per_row, 8);
    assert_eq!(t.total_slots, 64);
}

#[test]
fn tier_large_count() {
    let t = tier_for(100);
    assert_eq!(t.frame_size, 128);
    assert_eq!(t.slots_per_row, 8);
    assert_eq!(t.total_slots, 64);
}

#[test]
fn tier_grids_are_square() {
    for n in [1usize, 3, 4, 5, 10, 16, 17, 64, 1000] {
        let t = tier_for(n);
        assert_eq!(t.slots_per_row * t.slots_per_row, t.total_slots);
    }
}
