use joycon_sys::spi::{
    cord_packing, unpack_x, unpack_y, LeftStickCalibration, UseSPIColors, UseSPIColorsError,
    Color, ControllerColor, SPIRange, SPIReadRequest, SPIReadResult, SPIWriteRequest,
    SPIRegion, SPIWriteResult, SensorCalibration, SticksCalibration, UserSensorCalibration,
    UserSticksCalibration, SPI,
};

fn sample_colors() -> ControllerColor {
    ControllerColor {
        body: Color::new(0x11, 0x22, 0x33),
        buttons: Color::new(0x44, 0x55, 0x66),
        left_grip: Color::new(0x77, 0x88, 0x99),
        right_grip: Color::new(0xaa, 0xbb, 0xcc),
    }
}

#[test]
fn read_request_bytes() {
    let req = SPIReadRequest::new(SPIRange::new(0x603D, 0x12));
    assert_eq!(req.range(), SPIRange::new(0x603D, 0x12));
    assert_eq!(req.to_bytes(), [0x3D, 0x60, 0, 0, 0x12]);
}

#[test]
fn write_request_pads_data() {
    let data = [1u8, 2, 3];
    let req = SPIWriteRequest::new(SPIRange::new(0x8026, 3), &data);
    assert_eq!(req.range().offset(), 0x8026);
    assert_eq!(req.range().size(), 3);
    let bytes = req.to_bytes();
    assert_eq!(bytes.len(), 34);
    assert_eq!(&bytes[..8], &[0x26, 0x80, 0, 0, 3, 1, 2, 3]);
    assert!(bytes[8..].iter().all(|b| *b == 0));
}

#[test]
fn write_result_status() {
    assert!(SPIWriteResult::new(0).success());
    assert!(!SPIWriteResult::new(1).success());
}

#[test]
fn color_record_round_trip() {
    let colors = sample_colors();
    let result: SPIReadResult = colors.into();
    assert_eq!(result.range(), ControllerColor::range());
    assert_eq!(&result.raw()[..3], &[0x11, 0x22, 0x33]);
    let back = ControllerColor::try_from(result).unwrap();
    assert_eq!(back.body, colors.body);
    assert_eq!(back.buttons, colors.buttons);
    assert_eq!(back.left_grip, colors.left_grip);
    assert_eq!(back.right_grip, colors.right_grip);
}

#[test]
fn wrong_range_names_both() {
    let result: SPIReadResult = sample_colors().into();
    let err = SensorCalibration::try_from(result).unwrap_err();
    assert_eq!(err.expected, SPIRange::new(0x6020, 0x18));
    assert_eq!(err.got, SPIRange::new(0x6050, 12));
    let err = SticksCalibration::try_from(result).unwrap_err();
    assert_eq!(err.expected, SPIRange::new(0x603D, 0x12));
}

#[test]
fn sticks_record_round_trip() {
    let sticks = SticksCalibration::default();
    let result: SPIReadResult = sticks.into();
    assert_eq!(result.range(), SPIRange::new(0x603D, 0x12));
    let back = SticksCalibration::try_from(result).unwrap();
    assert_eq!(back.left.center(), sticks.left.center());
    assert_eq!(back.right.max(), sticks.right.max());
    assert!(UserSticksCalibration::try_from(result).is_err());
}

#[test]
fn sensor_record_bytes() {
    let result: SPIReadResult = SensorCalibration::default().into();
    assert_eq!(result.range(), SPIRange::new(0x6020, 0x18));
    let raw = result.raw();
    // accelerometer origin -2048, -1024, 0
    assert_eq!(&raw[..6], &[0x00, 0xf8, 0x00, 0xfc, 0x00, 0x00]);
    // gyroscope sensitivity 5173
    assert_eq!(&raw[18..24], &[0x35, 0x14, 0x35, 0x14, 0x35, 0x14]);
    assert!(raw[24..].iter().all(|b| *b == 0));
}

#[test]
fn user_sensor_write_request() {
    let req: SPIWriteRequest = UserSensorCalibration::reset().into();
    let bytes = req.to_bytes();
    assert_eq!(&bytes[..7], &[0x26, 0x80, 0, 0, 0x1A, 0xFF, 0xFF]);
    assert!(bytes[7..].iter().all(|b| *b == 0));
    let result: SPIReadResult = UserSensorCalibration::default().into();
    let back = UserSensorCalibration::try_from(result).unwrap();
    assert!(back.calib().is_some());
}

#[test]
fn read_result_from_wire() {
    let mut wire = vec![0x50u8, 0x60, 0, 0, 12];
    wire.extend_from_slice(&[0xff, 0x80, 0x00]);
    wire.resize(34, 0);
    let result = SPIReadResult::from_bytes(&wire).unwrap();
    let colors = ControllerColor::try_from(result).unwrap();
    assert_eq!(colors.body.to_string(), "#ff8000");
    assert!(SPIReadResult::from_bytes(&wire[..33]).is_none());
    wire[4] = 0x1E;
    assert!(SPIReadResult::from_bytes(&wire).is_none());
}

#[test]
fn color_parse_and_format() {
    let c = Color::from_str("ff8000").unwrap();
    assert_eq!(c.to_string(), "#ff8000");
    assert_eq!(Color::from_str("0A0b0C").unwrap().to_string(), "#0a0b0c");
    assert!(Color::from_str("ff80zz").is_err());
    assert!(Color::from_str("+f8000").is_err());
    assert_eq!(Color::default().to_string(), "#000000");
}

#[test]
fn known_regions() {
    assert_eq!(SPIRange::new(0x6050, 12).known_region(), Some(SPIRegion::ControllerColor));
    assert_eq!(SPIRange::new(0x6000, 16).known_region(), Some(SPIRegion::SerialNumber));
    assert_eq!(
        SPIRange::new(0x8026, 0x1A).known_region(),
        Some(SPIRegion::UserSensorCalibration)
    );
    assert_eq!(SPIRange::new(0x6050, 13).known_region(), None);
    assert_eq!(SPIRange::new(0x1234, 4).known_region(), None);
}

#[test]
fn user_sticks_record_round_trip() {
    let mut user = UserSticksCalibration {
        left: Default::default(),
        right: Default::default(),
    };
    user.left.set_magic(false);
    let result: SPIReadResult = user.into();
    assert_eq!(result.range(), SPIRange::new(0x8010, 0x16));
    let raw = result.raw();
    assert_eq!(&raw[..2], &[0xFF, 0xFF]);
    assert_eq!(&raw[11..13], &[0xB2, 0xA1]);
    let back = UserSticksCalibration::try_from(result).unwrap();
    assert!(back.left.calib().is_none());
    assert_eq!(back.right.calib().unwrap().center(), (0x79F, 0x8A0));
}

#[test]
fn colors_in_use_flag() {
    let req: SPIWriteRequest = UseSPIColors::IncludingGrip.into();
    let bytes = req.to_bytes();
    assert_eq!(&bytes[..6], &[0x1B, 0x60, 0, 0, 1, 2]);
    let mut wire = vec![0x1Bu8, 0x60, 0, 0, 1, 1];
    wire.resize(34, 0);
    let result = SPIReadResult::from_bytes(&wire).unwrap();
    assert_eq!(UseSPIColors::try_from(result).unwrap(), UseSPIColors::WithoutGrip);
    wire[5] = 7;
    let result = SPIReadResult::from_bytes(&wire).unwrap();
    assert!(matches!(
        UseSPIColors::try_from(result),
        Err(UseSPIColorsError::UnknownValue(7))
    ));
    let other: SPIReadResult = sample_colors().into();
    match UseSPIColors::try_from(other) {
        Err(UseSPIColorsError::WrongRange(e)) => {
            assert_eq!(e.expected, SPIRange::new(0x601B, 1));
            assert_eq!(e.got, SPIRange::new(0x6050, 12));
        }
        _ => panic!("expected a wrong-range error"),
    }
}

#[test]
fn checked_write_request() {
    let range = SPIRange::new(0x8026, 3);
    assert!(SPIWriteRequest::try_new(range, &[1, 2]).is_none());
    assert!(SPIWriteRequest::try_new(range, &[1, 2, 3, 4]).is_none());
    let req = SPIWriteRequest::try_new(range, &[1, 2, 3]).unwrap();
    assert_eq!(&req.raw()[..4], &[1, 2, 3, 0]);
}

#[test]
fn packing_exact() {
    for (x, y) in [(0u16, 0u16), (0xFFF, 0xFFF), (0x79F, 0x8A0), (0x123, 0xABC)] {
        let packed = cord_packing(x, y);
        assert_eq!(unpack_x(packed), x);
        assert_eq!(unpack_y(packed), y);
    }
    assert_eq!(cord_packing(0x123, 0xABC), [0x23, 0xC1, 0xAB]);
    let calib = LeftStickCalibration::default();
    assert_eq!(calib.conv_x(cord_packing(0x510, 0x479)), 0x510);
    assert_eq!(calib.conv_y(cord_packing(0x510, 0x479)), 0x479);
}
