//! Byte-exact codec layer for a game controller's HID protocol: little-endian
//! scalars, one-byte tags, tagged frames and the SPI flash records that hold
//! the controller's calibration and colours.

pub mod common;
pub mod frame;
pub mod reply;
pub mod spi;
