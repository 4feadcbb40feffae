use joycon_sys::common::SubcommandId;
use joycon_sys::reply::{SubcommandReply, SubcommandReplyEnum};
use joycon_sys::spi::SPIWriteResult;

#[test]
fn reply_round_trip() {
    let frame = SubcommandReply::from_view(SubcommandReplyEnum::SPIWrite(SPIWriteResult::new(1)));
    assert_eq!(frame.pre(), [0]);
    assert!(frame.id() == SubcommandId::SPIWrite);
    assert_eq!(frame.to_bytes(), vec![0, 0x11, 1]);
    match frame.try_into_view() {
        Ok(SubcommandReplyEnum::SPIWrite(w)) => assert!(!w.success()),
        _ => panic!("expected a write reply"),
    }
}

#[test]
fn reply_headers_and_variant() {
    let mut frame = SubcommandReply::from_bytes(&[0x80, 0x30, 0]).unwrap();
    assert_eq!(frame.pre(), [0x80]);
    assert!(matches!(frame.variant(), Some(SubcommandReplyEnum::SetPlayerLights)));
    frame.set_pre([0x90]);
    assert_eq!(frame.to_bytes(), vec![0x90, 0x30, 0]);
    assert!(SubcommandReply::from_bytes(&[0x80, 0x30]).is_none());
}

#[test]
fn unknown_reply_is_returned() {
    let frame = SubcommandReply::from_bytes(&[0x80, 0x10, 7]).unwrap();
    assert!(frame.variant().is_none());
    let back = frame.try_into_view().unwrap_err();
    assert_eq!(back.raw(), &[7]);
    assert_eq!(back.id().to_byte(), 0x10);
    let zero = SubcommandReply::new();
    assert_eq!(zero.to_bytes(), vec![0, 0, 0]);
    assert!(zero.variant().is_none());
}

#[test]
fn set_view_keeps_headers() {
    let mut frame = SubcommandReply::from_bytes(&[0x80, 0x77, 9]).unwrap();
    assert!(frame.variant().is_none());
    frame.set_view(SubcommandReplyEnum::SPIWrite(SPIWriteResult::new(0)));
    assert_eq!(frame.to_bytes(), vec![0x80, 0x11, 0]);
    frame.set_view(SubcommandReplyEnum::SetHomeLight);
    assert_eq!(frame.to_bytes(), vec![0x80, 0x38, 0]);
    assert!(matches!(frame.variant(), Some(SubcommandReplyEnum::SetHomeLight)));
}
