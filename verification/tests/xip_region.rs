use blueos_loader::XipRegion;

#[test]
fn contains_needs_the_whole_range() {
    let r = XipRegion::new(0x1000, 0x2000);
    assert!(r.contains(0x1000, 0x2000));
    assert!(r.contains(0x1800, 0x1900));
    assert!(!r.contains(0x0fff, 0x1100));
    assert!(!r.contains(0x1f00, 0x2001));
}

#[test]
fn empty_region_contains_nothing() {
    let r = XipRegion::new(0x2000, 0x2000);
    assert!(!r.contains(0x2000, 0x2000));
    let backwards = XipRegion::new(0x3000, 0x2000);
    assert!(!backwards.contains(0x2800, 0x2900));
}

#[test]
fn intersects_any_shared_address() {
    let r = XipRegion::new(0x1000, 0x2000);
    assert!(r.intersects(0x0f00, 0x1001));
    assert!(r.intersects(0x1fff, 0x3000));
    assert!(r.intersects(0x0000, 0x4000));
    assert!(!r.intersects(0x0f00, 0x1000));
    assert!(!r.intersects(0x2000, 0x3000));
}

#[test]
fn holding_region_meets_the_range() {
    let r = XipRegion::new(0x1000, 0x2000);
    for (s, e) in [(0x1000usize, 0x1001usize), (0x1800, 0x2000), (0x1000, 0x2000)] {
        assert!(r.contains(s, e));
        assert!(r.intersects(s, e));
    }
}

#[test]
fn regions_compare_by_bounds() {
    assert_eq!(XipRegion::new(1, 2), XipRegion::new(1, 2));
    assert_ne!(XipRegion::new(1, 2), XipRegion::new(1, 3));
}
