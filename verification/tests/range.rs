use frontend_core::range::{level_progress, map_range, Ratio, MAP_RANGE_BOUND};

#[test]
fn map_range_clamped() {
    assert_eq!(map_range(50, 0, 100, 0, 1, true), Ratio::new(1, 2));
    assert_eq!(map_range(150, 0, 100, 0, 1, true), Ratio::new(1, 1));
    assert_eq!(map_range(-10, 0, 100, 0, 1, true), Ratio::new(0, 1));
}

#[test]
fn map_range_unclamped() {
    assert_eq!(map_range(150, 0, 100, 0, 1, false), Ratio::new(3, 2));
    assert_eq!(map_range(-10, 0, 100, 0, 1, false), Ratio::new(-1, 10));
}

#[test]
fn map_range_reversed_source() {
    // The source interval may run downward: 25 sits three quarters of the
    // way from 100 to 0.
    assert_eq!(map_range(25, 100, 0, 0, 1, true), Ratio::new(3, 4));
}

#[test]
fn map_range_general_destination() {
    assert_eq!(map_range(5, 0, 10, 20, 40, false), Ratio::new(30, 1));
    assert_eq!(map_range(0, 0, 10, 40, 20, true), Ratio::new(40, 1));
    assert_eq!(map_range(10, 0, 10, 40, 20, true), Ratio::new(20, 1));
}

#[test]
fn map_range_extreme_inputs() {
    let b = MAP_RANGE_BOUND;
    assert_eq!(map_range(b, -b, b, 0, 1, true), Ratio::new(1, 1));
    assert_eq!(map_range(-b, -b, b, 0, 1, true), Ratio::new(0, 1));
    assert_eq!(map_range(0, -b, b, -b, b, true), Ratio::new(0, 1));
}

#[test]
fn ratio_is_canonical() {
    assert_eq!(Ratio::new(2, 4), Ratio::new(1, 2));
    assert_eq!(Ratio::new(-3, -6), Ratio::new(1, 2));
    assert_eq!(Ratio::new(1, -2), Ratio::new(-1, 2));
    assert_eq!(Ratio::new(0, -7), Ratio::new(0, 1));
    assert_eq!(Ratio::new(1, 2).num(), 1);
    assert_eq!(Ratio::new(1, 2).den(), 2);
    assert_eq!(Ratio::new(50, 100).num(), 1);
    assert_eq!(Ratio::new(50, 100).den(), 2);
}

#[test]
fn percent_truncates_toward_zero() {
    assert_eq!(Ratio::new(1, 2).percent(), 50);
    assert_eq!(Ratio::new(1, 3).percent(), 33);
    assert_eq!(Ratio::new(2, 3).percent(), 66);
    assert_eq!(Ratio::new(1, 1).percent(), 100);
    assert_eq!(Ratio::new(0, 5).percent(), 0);
}

#[test]
fn level_progress_matches_score_position() {
    assert_eq!(level_progress(50, 0, 100), Ratio::new(1, 2));
    assert_eq!(level_progress(50, 0, 100).percent(), 50);
    assert_eq!(level_progress(75, 50, 150), Ratio::new(1, 4));
}

#[test]
fn level_progress_clamps() {
    assert_eq!(level_progress(500, 0, 100), Ratio::new(1, 1));
    assert_eq!(level_progress(500, 0, 100).percent(), 100);
    assert_eq!(level_progress(10, 50, 150), Ratio::new(0, 1));
    assert_eq!(level_progress(10, 50, 150).percent(), 0);
}
