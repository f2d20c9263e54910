//! Flight modes by their numbers.

use groundhog::flight_mode::{Copter, Plane};

#[test]
fn copter_modes_have_their_numbers() {
    assert_eq!(Copter::from_primitive(0), Copter::Stabilize);
    assert_eq!(Copter::from_primitive(6), Copter::Rtl);
    assert_eq!(Copter::from_primitive(28), Copter::Turtle);
    for number in [8, 10, 12, 29, 100, 254, 255] {
        assert_eq!(Copter::from_primitive(number), Copter::Unknown);
    }
    for number in 0..=255u8 {
        let mode = Copter::from_primitive(number);
        assert!(mode.number() == number || mode == Copter::Unknown);
    }
    assert_eq!(Copter::Unknown.number(), 255);
    assert_eq!(Copter::Poshold.number(), 16);
}

#[test]
fn plane_modes_have_their_numbers() {
    assert_eq!(Plane::from_primitive(0), Plane::Manual);
    assert_eq!(Plane::from_primitive(11), Plane::Rtl);
    assert_eq!(Plane::from_primitive(26), Plane::Autoland);
    for number in [9, 27, 200, 255] {
        assert_eq!(Plane::from_primitive(number), Plane::Unknown);
    }
    for number in 0..=255u8 {
        let mode = Plane::from_primitive(number);
        assert!(mode.number() == number || mode == Plane::Unknown);
    }
    assert_eq!(Plane::FlyByWireB.number(), 6);
}
