use pica::{MacAddress, Position};

#[test]
fn distance_of_a_right_triangle() {
    let a = Position::new(0, 0, 0, 0, 0);
    let b = Position::new(30, 40, 0, 0, 0);
    let (distance, _, _) = a.compute_range_azimuth_elevation(&b);
    assert_eq!(distance, 50);
}

#[test]
fn distance_along_one_axis() {
    let a = Position::new(0, 0, 0, 0, 0);
    let b = Position::new(100, 0, 0, 0, 0);
    let (distance, azimuth, elevation) = a.compute_range_azimuth_elevation(&b);
    assert_eq!(distance, 100);
    assert_eq!(azimuth, 0, "straight ahead along the reference axis");
    assert_eq!(elevation, 0);
}

#[test]
fn distance_is_symmetric() {
    let a = Position::new(-120, 37, 955, 45, -10);
    let b = Position::new(310, -2000, 14, -90, 60);
    let (d_ab, _, _) = a.compute_range_azimuth_elevation(&b);
    let (d_ba, _, _) = b.compute_range_azimuth_elevation(&a);
    assert_eq!(d_ab, d_ba);
}

#[test]
fn bearing_is_not_symmetric_in_general() {
    let a = Position::new(0, 0, 0, 0, 0);
    let b = Position::new(0, 100, 0, 0, 0);
    let (_, az_ab, _) = a.compute_range_azimuth_elevation(&b);
    let (_, az_ba, _) = b.compute_range_azimuth_elevation(&a);
    assert_eq!(az_ab, 90);
    assert_eq!(az_ba, -90);
}

#[test]
fn orientation_turns_the_reported_azimuth() {
    let a = Position::new(0, 0, 0, 90, 0);
    let b = Position::new(100, 0, 0, 0, 0);
    let (_, azimuth, _) = a.compute_range_azimuth_elevation(&b);
    assert_eq!(azimuth, -90, "the peer stands to the right of a's heading");
}

#[test]
fn elevation_looks_up_along_z() {
    let a = Position::new(0, 0, 0, 0, 0);
    let b = Position::new(0, 0, 77, 0, 0);
    let (d, _, elevation) = a.compute_range_azimuth_elevation(&b);
    assert_eq!(d, 77);
    assert_eq!(elevation, 90);
}

#[test]
fn distance_caps_at_the_largest_reportable_value() {
    let a = Position::new(-32768, -32768, -32768, 0, 0);
    let b = Position::new(32767, 32767, 32767, 0, 0);
    let (d, _, _) = a.compute_range_azimuth_elevation(&b);
    assert_eq!(d, 65535);
}

#[test]
fn short_address_bytes_are_little_endian() {
    let mac = MacAddress::Short(0x1122);
    assert_eq!(mac.le_bytes(), vec![0x22, 0x11]);
}

#[test]
fn extended_address_bytes_are_little_endian() {
    let mac = MacAddress::Extended(0x0807060504030201);
    assert_eq!(mac.le_bytes(), vec![1, 2, 3, 4, 5, 6, 7, 8]);
}

#[test]
fn from_handle_uses_the_short_form() {
    assert_eq!(MacAddress::from_handle(7), MacAddress::Short(7));
}
