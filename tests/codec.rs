use joycon_sys::common::{
    Bool, InputReportId, RawId, SubcommandId, HID_IDS, I16LE, PRO_CONTROLLER, U16LE, U32LE,
};

#[test]
fn u16_little_endian() {
    let w = U16LE::from(0x1234u16);
    assert_eq!(w.to_bytes(), [0x34, 0x12]);
    assert_eq!(u16::from(w), 0x1234);
    for v in [0u16, 1, 0xff, 0x100, 0xfffe, 0xffff] {
        assert_eq!(u16::from(U16LE::from(v)), v);
    }
}

#[test]
fn i16_little_endian() {
    let w = I16LE::from(-2i16);
    assert_eq!(w.0, [0xfe, 0xff]);
    assert_eq!(i16::from(w), -2);
    assert_eq!(I16LE::from(4000i16).0, [0xa0, 0x0f]);
    for v in [i16::MIN, -1, 0, 1, i16::MAX] {
        assert_eq!(i16::from(I16LE::from(v)), v);
    }
}

#[test]
fn u32_little_endian() {
    let w = U32LE::from(0x1234_5678u32);
    assert_eq!(w.to_bytes(), [0x78, 0x56, 0x34, 0x12]);
    assert_eq!(u32::from(w), 0x1234_5678);
    assert_eq!(u32::from(U32LE::from(u32::MAX)), u32::MAX);
}

#[test]
fn tag_round_trip() {
    let id: RawId<SubcommandId> = SubcommandId::SPIRead.into();
    assert_eq!(id.to_byte(), 0x10);
    assert_eq!(id.try_into(), Some(SubcommandId::SPIRead));
    assert!(id == SubcommandId::SPIRead);
    assert!(!(id == SubcommandId::SPIWrite));
    let input: RawId<InputReportId> = InputReportId::StandardFull.into();
    assert_eq!(input.to_byte(), 0x30);
    assert_eq!(input.try_into(), Some(InputReportId::StandardFull));
}

#[test]
fn unknown_tag_is_kept() {
    let id = RawId::<SubcommandId>::new(0x77);
    assert_eq!(id.try_into(), None);
    assert_eq!(id.to_byte(), 0x77);
    assert!(!(id == SubcommandId::GetOnlyControllerState));
    let input = RawId::<InputReportId>::new(0x32);
    assert_eq!(input.try_into(), None);
    assert_eq!(input.to_byte(), 0x32);
}

#[test]
fn bool_from_bool() {
    assert!(matches!(Bool::from(true), Bool::True));
    assert!(matches!(Bool::from(false), Bool::False));
}

#[test]
fn product_ids() {
    assert_eq!(HID_IDS, [0x2006, 0x2007, 0x2009, 0x200e]);
    assert!(HID_IDS.contains(&PRO_CONTROLLER));
}
