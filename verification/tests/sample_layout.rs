use raytrace::sample::SampleLayout;

#[test]
fn layout_arena_positions() {
    let mut layout = SampleLayout::new();
    let a = layout.add_1d(2);
    let b = layout.add_1d(3);
    let c = layout.add_2d(4);
    assert_eq!(a.0, 0);
    assert_eq!(b.0, 1);
    assert_eq!(c.0, 0);
    layout.allocate_sample_memory();
    assert_eq!(layout.mem_size(), 2 + 3 + 2 * 4);
    assert_eq!(layout.range_1d(a), (0, 2));
    assert_eq!(layout.range_1d(b), (2, 3));
    assert_eq!(layout.range_2d(c), (5, 8));
}

#[test]
fn layout_empty() {
    let mut layout = SampleLayout::new();
    assert_eq!(layout.num_1d(), 0);
    assert_eq!(layout.num_2d(), 0);
    layout.allocate_sample_memory();
    assert_eq!(layout.mem_size(), 0);
}

#[test]
fn layout_offsets_listing() {
    let mut layout = SampleLayout::new();
    layout.add_1d(2);
    layout.add_1d(3);
    layout.add_2d(5);
    let ones = layout.offsets_1d();
    assert_eq!(ones.len(), 2);
    assert_eq!(ones[0].0 .0, 0);
    assert_eq!(ones[0].1, 2);
    assert_eq!(ones[1].0 .0, 1);
    assert_eq!(ones[1].1, 3);
    let twos = layout.offsets_2d();
    assert_eq!(twos.len(), 1);
    assert_eq!(twos[0].0 .0, 0);
    assert_eq!(twos[0].1, 5);
}

#[test]
fn layout_slots_disjoint() {
    let mut layout = SampleLayout::new();
    let a = layout.add_1d(7);
    let b = layout.add_1d(1);
    let c = layout.add_2d(2);
    let d = layout.add_2d(3);
    layout.allocate_sample_memory();
    let (a0, alen) = layout.range_1d(a);
    let (b0, blen) = layout.range_1d(b);
    let (c0, clen) = layout.range_2d(c);
    let (d0, dlen) = layout.range_2d(d);
    // 1D slots in registration order, then 2D slots, with no overlap.
    assert!(a0 + alen <= b0);
    assert!(b0 + blen <= c0);
    assert!(c0 + clen <= d0);
    assert!(d0 + dlen <= layout.mem_size());
}

#[test]
fn layout_2d_slots_are_two_cells_per_sample() {
    let mut layout = SampleLayout::new();
    let c = layout.add_2d(3);
    layout.allocate_sample_memory();
    assert_eq!(layout.range_2d(c), (0, 6));
    assert_eq!(layout.mem_size(), 6);
}
