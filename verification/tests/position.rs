use frontend_core::position::{
    fmt_coordinate_east_west, fmt_coordinate_north_south, fmt_position, format_u64,
};

#[test]
fn decimal_formatting() {
    assert_eq!(format_u64(0), "0");
    assert_eq!(format_u64(7), "7");
    assert_eq!(format_u64(10), "10");
    assert_eq!(format_u64(1234567890), "1234567890");
    assert_eq!(format_u64(u64::MAX), "18446744073709551615");
}

#[test]
fn coordinate_labels() {
    assert_eq!(fmt_coordinate_east_west(5, true), "5E");
    assert_eq!(fmt_coordinate_east_west(5, false), "5W");
    assert_eq!(fmt_coordinate_north_south(12, true), "12N");
    assert_eq!(fmt_coordinate_north_south(12, false), "12S");
    assert_eq!(fmt_coordinate_east_west(0, true), "0E");
}

#[test]
fn position_labels() {
    assert_eq!(fmt_position(5, true, 3, false), "(5E, 3S)");
    assert_eq!(fmt_position(0, true, 0, true), "(0E, 0N)");
    assert_eq!(fmt_position(120, false, 48, true), "(120W, 48N)");
}
