use satpaper::background::{by_hour, by_sun, clock_hour, Background};

#[test]
fn sun_decides_day_and_night() {
    assert_eq!(by_sun(50, 10, 100), Background::Day);
    assert_eq!(by_sun(10, 10, 100), Background::Day);
    assert_eq!(by_sun(9, 10, 100), Background::Night);
    assert_eq!(by_sun(101, 10, 100), Background::Night);
}

#[test]
fn hour_decides_day_and_night() {
    assert_eq!(by_hour(6), Background::Night);
    assert_eq!(by_hour(7), Background::Day);
    assert_eq!(by_hour(17), Background::Day);
    assert_eq!(by_hour(18), Background::Night);
    assert_eq!(by_hour(0), Background::Night);
}

#[test]
fn clock_output_is_read_as_two_digits() {
    assert_eq!(clock_hour(b"07\n"), Some(7));
    assert_eq!(clock_hour(b"11\n"), Some(11));
    assert_eq!(clock_hour(b"3"), Some(3));
    assert_eq!(clock_hour(b""), Some(0));
    assert_eq!(clock_hour(b"x1"), None);
}
