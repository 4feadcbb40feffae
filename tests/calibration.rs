use joycon_sys::spi::{
    LeftStickCalibration, LeftUserStickCalibration, RightStickCalibration,
    RightUserStickCalibration, SensorCalibration, UserSensorCalibration,
};

#[test]
fn left_calibration() {
    let calib = LeftStickCalibration::default();

    // check if calibration values are plausible
    assert!(calib.min().0 < calib.center().0);
    assert!(calib.center().0 < calib.max().0);
    assert!(calib.min().1 < calib.center().1);
    assert!(calib.center().1 < calib.max().1);
}

#[test]
fn right_calibration() {
    let calib = RightStickCalibration::default();

    // check if calibration values are plausible
    assert!(calib.min().0 < calib.center().0);
    assert!(calib.center().0 < calib.max().0);
    assert!(calib.min().1 < calib.center().1);
    assert!(calib.center().1 < calib.max().1);
}

#[test]
fn default_stick_values() {
    let calib = LeftStickCalibration::default();
    assert_eq!(calib.center(), (0x79F, 0x8A0));
    assert_eq!(calib.max(), (0x79F + 0x510, 0x8A0 + 0x479));
    assert_eq!(calib.min(), (0x79F - 0x4F7, 0x8A0 - 0x424));
    let right = RightStickCalibration::default();
    assert_eq!(right.center(), calib.center());
    assert_eq!(right.max(), calib.max());
    assert_eq!(right.min(), calib.min());
}

#[test]
fn user_stick_absent_then_set() {
    let mut user = LeftUserStickCalibration::default();
    assert!(user.calib().is_some());
    user.set_magic(false);
    assert!(user.calib().is_none());
    assert_eq!(user.center(), None);
    assert_eq!(user.max(), None);
    assert_eq!(user.min(), None);
    user.set_calib(LeftStickCalibration::default());
    let back = user.calib().unwrap();
    assert_eq!(back.center(), (0x79F, 0x8A0));
    assert_eq!(user.center(), Some((0x79F, 0x8A0)));
    assert_eq!(user.max(), Some((0x79F + 0x510, 0x8A0 + 0x479)));
    assert_eq!(user.min(), Some((0x79F - 0x4F7, 0x8A0 - 0x424)));
}

#[test]
fn right_user_stick_set() {
    let mut user = RightUserStickCalibration::default();
    user.set_calib(RightStickCalibration::default());
    assert_eq!(user.calib().unwrap().center(), (0x79F, 0x8A0));
}

#[test]
fn sensor_reset_reads_as_absent() {
    let user = UserSensorCalibration::reset();
    assert!(user.calib().is_none());
    let present = UserSensorCalibration::from(SensorCalibration::reset());
    assert!(present.calib().is_some());
    assert!(UserSensorCalibration::default().calib().is_some());
}
